//! The on-disk text format of `Config`: a verified renderer that emits
//! one `key = value` line per field, and a verified parser that accepts
//! exactly the rendered form and recovers the configuration.

use vstd::prelude::*;

use crate::config::Alignment;
use crate::config::Config;
use crate::config::FetchError;
use crate::text::all_digits;
use crate::text::char_digit;
use crate::text::digits_value;
use crate::text::is_digit;
use crate::text::lemma_dec_digits_value;
use crate::text::lemma_digits_value_mono;
use crate::text::lemma_digits_value_snoc;
use crate::text::push_dec_u64;
use crate::text::spec_dec_digits;

verus! {

/// The stored text of an alignment value.
pub open spec fn spec_align_text(a: Alignment) -> Seq<char> {
    match a {
        Alignment::Left => "left"@,
        Alignment::Right => "right"@,
    }
}

/// The stored text of a boolean value.
pub open spec fn spec_bool_text(b: bool) -> Seq<char> {
    if b {
        "true"@
    } else {
        "false"@
    }
}

/// The canonical text of a configuration: one `key = value` line per
/// field, in declaration order, ending with a newline.
pub open spec fn spec_render_config(c: Config) -> Seq<char> {
    "alignment = \""@ + spec_align_text(c.alignment) + "\"\nspacing = "@ + spec_dec_digits(
        c.spacing as int,
    ) + "\nshow_cpu = "@ + spec_bool_text(c.show_cpu) + "\nshow_ram = "@ + spec_bool_text(
        c.show_ram,
    ) + "\nshow_os = "@ + spec_bool_text(c.show_os) + "\nshow_battery = "@ + spec_bool_text(
        c.show_battery,
    ) + "\nshow_disk = "@ + spec_bool_text(c.show_disk) + "\nshow_network = "@ + spec_bool_text(
        c.show_network,
    ) + "\n"@
}

/// Append the stored text of a boolean.
fn push_bool(s: &mut String, b: bool)
    ensures
        final(s)@ == old(s)@ + spec_bool_text(b),
{
    if b {
        s.append("true");
    } else {
        s.append("false");
    }
}

/// Serialize a configuration to its canonical text.
pub fn render_config(c: &Config) -> (r: String)
    ensures
        r@ == spec_render_config(*c),
{
    let mut s = String::new();
    s.append("alignment = \"");
    match c.alignment {
        Alignment::Left => s.append("left"),
        Alignment::Right => s.append("right"),
    }
    s.append("\"\nspacing = ");
    push_dec_u64(&mut s, c.spacing);
    s.append("\nshow_cpu = ");
    push_bool(&mut s, c.show_cpu);
    s.append("\nshow_ram = ");
    push_bool(&mut s, c.show_ram);
    s.append("\nshow_os = ");
    push_bool(&mut s, c.show_os);
    s.append("\nshow_battery = ");
    push_bool(&mut s, c.show_battery);
    s.append("\nshow_disk = ");
    push_bool(&mut s, c.show_disk);
    s.append("\nshow_network = ");
    push_bool(&mut s, c.show_network);
    s.append("\n");
    proof {
        assert(s@ =~= spec_render_config(*c));
    }
    s
}

/// Position just past `t` if `t` occurs in `s` at position `i`.
pub open spec fn spec_expect(s: Seq<char>, i: int, t: Seq<char>) -> Option<int> {
    if 0 <= i && i + t.len() <= s.len() && s.subrange(i, i + t.len()) == t {
        Some(i + t.len())
    } else {
        None
    }
}

/// Read an alignment word at position `i`.
pub open spec fn spec_scan_align(s: Seq<char>, i: int) -> Option<(Alignment, int)> {
    match spec_expect(s, i, "left"@) {
        Some(j) => Some((Alignment::Left, j)),
        None => match spec_expect(s, i, "right"@) {
            Some(j) => Some((Alignment::Right, j)),
            None => None,
        },
    }
}

/// Read a boolean word at position `i`.
pub open spec fn spec_scan_bool(s: Seq<char>, i: int) -> Option<(bool, int)> {
    match spec_expect(s, i, "true"@) {
        Some(j) => Some((true, j)),
        None => match spec_expect(s, i, "false"@) {
            Some(j) => Some((false, j)),
            None => None,
        },
    }
}

/// The end of the run of digit characters that starts at position `i`.
pub open spec fn digit_run_end(s: Seq<char>, i: int) -> int
    recommends
        0 <= i <= s.len(),
    decreases s.len() - i,
{
    if 0 <= i < s.len() && is_digit(s[i]) {
        digit_run_end(s, i + 1)
    } else {
        i
    }
}

/// Read a nonempty digit run at position `i` as a `u64`; overflow is a
/// failed read, not a truncated value.
pub open spec fn spec_scan_u64(s: Seq<char>, i: int) -> Option<(u64, int)> {
    let j = digit_run_end(s, i);
    let v = digits_value(s.subrange(i, j));
    if j == i || v > u64::MAX {
        None
    } else {
        Some((v as u64, j))
    }
}

/// Read a whole configuration: every field line in declaration order,
/// with nothing before, between or after the lines.
pub open spec fn spec_scan_config(s: Seq<char>) -> Option<Config> {
    match spec_expect(s, 0, "alignment = \""@) {
        None => None,
        Some(i1) => match spec_scan_align(s, i1) {
            None => None,
            Some((alignment, i2)) => match spec_expect(s, i2, "\"\nspacing = "@) {
                None => None,
                Some(i3) => match spec_scan_u64(s, i3) {
                    None => None,
                    Some((spacing, i4)) => match spec_expect(s, i4, "\nshow_cpu = "@) {
                        None => None,
                        Some(i5) => match spec_scan_bool(s, i5) {
                            None => None,
                            Some((show_cpu, i6)) => match spec_expect(s, i6, "\nshow_ram = "@) {
                                None => None,
                                Some(i7) => match spec_scan_bool(s, i7) {
                                    None => None,
                                    Some((show_ram, i8)) => match spec_expect(
                                        s,
                                        i8,
                                        "\nshow_os = "@,
                                    ) {
                                        None => None,
                                        Some(i9) => match spec_scan_bool(s, i9) {
                                            None => None,
                                            Some((show_os, i10)) => match spec_expect(
                                                s,
                                                i10,
                                                "\nshow_battery = "@,
                                            ) {
                                                None => None,
                                                Some(i11) => match spec_scan_bool(s, i11) {
                                                    None => None,
                                                    Some((show_battery, i12)) => match spec_expect(
                                                        s,
                                                        i12,
                                                        "\nshow_disk = "@,
                                                    ) {
                                                        None => None,
                                                        Some(i13) => match spec_scan_bool(s, i13) {
                                                            None => None,
                                                            Some((show_disk, i14)) => match spec_expect(
                                                                s,
                                                                i14,
                                                                "\nshow_network = "@,
                                                            ) {
                                                                None => None,
                                                                Some(i15) => match spec_scan_bool(
                                                                    s,
                                                                    i15,
                                                                ) {
                                                                    None => None,
                                                                    Some(
                                                                        (show_network, i16),
                                                                    ) => match spec_expect(
                                                                        s,
                                                                        i16,
                                                                        "\n"@,
                                                                    ) {
                                                                        None => None,
                                                                        Some(i17) => if i17
                                                                            == s.len() {
                                                                            Some(
                                                                                Config {
                                                                                    alignment,
                                                                                    spacing,
                                                                                    show_cpu,
                                                                                    show_ram,
                                                                                    show_os,
                                                                                    show_battery,
                                                                                    show_disk,
                                                                                    show_network,
                                                                                },
                                                                            )
                                                                        } else {
                                                                            None
                                                                        },
                                                                    },
                                                                },
                                                            },
                                                        },
                                                    },
                                                },
                                            },
                                        },
                                    },
                                },
                            },
                        },
                    },
                },
            },
        },
    }
}

/// `spec_expect` fails when any overlapped character differs.
proof fn lemma_expect_mismatch(s: Seq<char>, i: int, t: Seq<char>, k: int)
    requires
        0 <= i,
        0 <= k < t.len(),
        i + k < s.len(),
        s[i + k] != t[k],
    ensures
        spec_expect(s, i, t) is None,
{
    if i + t.len() <= s.len() {
        assert(s.subrange(i, i + t.len() as int)[k] == s[i + k]);
    }
}

/// A digit run bounded by a non-digit (or the end) ends exactly there.
proof fn lemma_digit_run_end_is(s: Seq<char>, i: int, j: int)
    requires
        0 <= i <= j <= s.len(),
        all_digits(s.subrange(i, j)),
        j == s.len() || !is_digit(s[j]),
    ensures
        digit_run_end(s, i) == j,
    decreases j - i,
{
    if i < j {
        assert(is_digit(s[i])) by {
            assert(s.subrange(i, j)[0] == s[i]);
        }
        assert(all_digits(s.subrange(i + 1, j))) by {
            assert(forall|m: int|
                0 <= m < j - i - 1 ==> #[trigger] s.subrange(i + 1, j)[m] == s.subrange(i, j)[m
                    + 1]);
        }
        lemma_digit_run_end_is(s, i + 1, j);
    }
}

/// When the suffix of `s` at `i` starts with `t`, expecting `t` succeeds
/// and leaves the rest of the suffix.
proof fn lemma_expect_step(s: Seq<char>, i: int, t: Seq<char>, rest: Seq<char>)
    requires
        0 <= i <= s.len(),
        s.subrange(i, s.len() as int) == t + rest,
    ensures
        i + t.len() <= s.len(),
        spec_expect(s, i, t) == Some(i + t.len() as int),
        s.subrange(i + t.len() as int, s.len() as int) == rest,
{
    let suf = s.subrange(i, s.len() as int);
    assert(suf.len() == t.len() + rest.len());
    s.lemma_slice_of_slice(i, s.len() as int, 0, t.len() as int);
    assert(suf.subrange(0, t.len() as int) =~= t);
    s.lemma_slice_of_slice(i, s.len() as int, t.len() as int, suf.len() as int);
    assert(suf.subrange(t.len() as int, suf.len() as int) =~= rest);
}

/// When the suffix of `s` at `i` starts with an alignment word, scanning
/// recovers that word.
proof fn lemma_scan_align_step(s: Seq<char>, i: int, al: Alignment, rest: Seq<char>)
    requires
        0 <= i <= s.len(),
        s.subrange(i, s.len() as int) == spec_align_text(al) + rest,
    ensures
        i + spec_align_text(al).len() <= s.len(),
        spec_scan_align(s, i) == Some((al, i + spec_align_text(al).len() as int)),
        s.subrange(i + spec_align_text(al).len() as int, s.len() as int) == rest,
{
    reveal_strlit("left");
    reveal_strlit("right");
    let suf = s.subrange(i, s.len() as int);
    assert(suf.len() == spec_align_text(al).len() + rest.len());
    match al {
        Alignment::Left => {
            lemma_expect_step(s, i, "left"@, rest);
        },
        Alignment::Right => {
            assert(s[i] == suf[0]);
            assert(("right"@ + rest)[0] == 'r');
            lemma_expect_mismatch(s, i, "left"@, 0);
            lemma_expect_step(s, i, "right"@, rest);
        },
    }
}

/// When the suffix of `s` at `i` starts with a boolean word, scanning
/// recovers that word.
proof fn lemma_scan_bool_step(s: Seq<char>, i: int, v: bool, rest: Seq<char>)
    requires
        0 <= i <= s.len(),
        s.subrange(i, s.len() as int) == spec_bool_text(v) + rest,
    ensures
        i + spec_bool_text(v).len() <= s.len(),
        spec_scan_bool(s, i) == Some((v, i + spec_bool_text(v).len() as int)),
        s.subrange(i + spec_bool_text(v).len() as int, s.len() as int) == rest,
{
    reveal_strlit("true");
    reveal_strlit("false");
    let suf = s.subrange(i, s.len() as int);
    assert(suf.len() == spec_bool_text(v).len() + rest.len());
    if v {
        lemma_expect_step(s, i, "true"@, rest);
    } else {
        assert(s[i] == suf[0]);
        assert(("false"@ + rest)[0] == 'f');
        lemma_expect_mismatch(s, i, "true"@, 0);
        lemma_expect_step(s, i, "false"@, rest);
    }
}

/// When the suffix of `s` at `i` starts with the canonical digits of `n`
/// followed by a non-digit, scanning recovers `n`.
proof fn lemma_scan_u64_step(s: Seq<char>, i: int, n: u64, rest: Seq<char>)
    requires
        0 <= i <= s.len(),
        s.subrange(i, s.len() as int) == spec_dec_digits(n as int) + rest,
        rest.len() > 0,
        !is_digit(rest[0]),
    ensures
        i + spec_dec_digits(n as int).len() <= s.len(),
        spec_scan_u64(s, i) == Some((n, i + spec_dec_digits(n as int).len() as int)),
        s.subrange(i + spec_dec_digits(n as int).len() as int, s.len() as int) == rest,
{
    let suf = s.subrange(i, s.len() as int);
    let d = spec_dec_digits(n as int);
    let j = i + d.len() as int;
    lemma_dec_digits_value(n as int);
    assert(suf.len() == d.len() + rest.len());
    s.lemma_slice_of_slice(i, s.len() as int, 0, d.len() as int);
    assert(suf.subrange(0, d.len() as int) =~= d);
    assert(s.subrange(i, j) == d);
    s.lemma_slice_of_slice(i, s.len() as int, d.len() as int, suf.len() as int);
    assert(suf.subrange(d.len() as int, suf.len() as int) =~= rest);
    assert(s.subrange(j, s.len() as int) == rest);
    assert(s[j] == rest[0]) by {
        assert(s.subrange(j, s.len() as int)[0] == s[j]);
    }
    lemma_digit_run_end_is(s, i, j);
}

spec fn sp1(c: Config) -> int {
    "alignment = \""@.len() as int
}

spec fn sp2(c: Config) -> int {
    sp1(c) + spec_align_text(c.alignment).len()
}

spec fn sp3(c: Config) -> int {
    sp2(c) + "\"\nspacing = "@.len()
}

spec fn sp4(c: Config) -> int {
    sp3(c) + spec_dec_digits(c.spacing as int).len()
}

spec fn sp5(c: Config) -> int {
    sp4(c) + "\nshow_cpu = "@.len()
}

spec fn sp6(c: Config) -> int {
    sp5(c) + spec_bool_text(c.show_cpu).len()
}

spec fn sp7(c: Config) -> int {
    sp6(c) + "\nshow_ram = "@.len()
}

spec fn sp8(c: Config) -> int {
    sp7(c) + spec_bool_text(c.show_ram).len()
}

spec fn sp9(c: Config) -> int {
    sp8(c) + "\nshow_os = "@.len()
}

spec fn sp10(c: Config) -> int {
    sp9(c) + spec_bool_text(c.show_os).len()
}

spec fn sp11(c: Config) -> int {
    sp10(c) + "\nshow_battery = "@.len()
}

spec fn sp12(c: Config) -> int {
    sp11(c) + spec_bool_text(c.show_battery).len()
}

spec fn sp13(c: Config) -> int {
    sp12(c) + "\nshow_disk = "@.len()
}

spec fn sp14(c: Config) -> int {
    sp13(c) + spec_bool_text(c.show_disk).len()
}

spec fn sp15(c: Config) -> int {
    sp14(c) + "\nshow_network = "@.len()
}

spec fn sp16(c: Config) -> int {
    sp15(c) + spec_bool_text(c.show_network).len()
}

spec fn sp17(c: Config) -> int {
    sp16(c) + "\n"@.len()
}

/// Concatenation of sequences is associative.
proof fn lemma_add_assoc(a: Seq<char>, b: Seq<char>, c: Seq<char>)
    ensures
        (a + b) + c == a + (b + c),
{
    assert((a + b) + c =~= a + (b + c));
}

/// The suffix of a concatenation past its first part is its second part.
proof fn lemma_suffix_of_concat(a: Seq<char>, b: Seq<char>, s: Seq<char>)
    requires
        s == a + b,
    ensures
        s.subrange(a.len() as int, s.len() as int) == b,
{
    assert(s.subrange(a.len() as int, s.len() as int) =~= b) by {
        assert(forall|k: int| 0 <= k < b.len() ==> #[trigger] (a + b)[a.len() + k] == b[k]);
    }
}

/// One lemma per field line of the rendered text: each re-derives the
/// suffix of the text at its own offset and applies the matching scan
/// step. Together they drive `lemma_scan_of_render`.
proof fn lemma_sor_align_key(c: Config)
    ensures
        spec_expect(spec_render_config(c), 0, "alignment = \""@) == Some(sp1(c)),
{
    let s = spec_render_config(c);
    let p0 = "alignment = \""@;
    let al = spec_align_text(c.alignment);
    let p1 = "\"\nspacing = "@;
    let d = spec_dec_digits(c.spacing as int);
    let p2 = "\nshow_cpu = "@;
    let b1 = spec_bool_text(c.show_cpu);
    let p3 = "\nshow_ram = "@;
    let b2 = spec_bool_text(c.show_ram);
    let p4 = "\nshow_os = "@;
    let b3 = spec_bool_text(c.show_os);
    let p5 = "\nshow_battery = "@;
    let b4 = spec_bool_text(c.show_battery);
    let p6 = "\nshow_disk = "@;
    let b5 = spec_bool_text(c.show_disk);
    let p7 = "\nshow_network = "@;
    let b6 = spec_bool_text(c.show_network);
    let p8 = "\n"@;
    let x1 = p0;
    let x2 = x1 + al;
    let x3 = x2 + p1;
    let x4 = x3 + d;
    let x5 = x4 + p2;
    let x6 = x5 + b1;
    let x7 = x6 + p3;
    let x8 = x7 + b2;
    let x9 = x8 + p4;
    let x10 = x9 + b3;
    let x11 = x10 + p5;
    let x12 = x11 + b4;
    let x13 = x12 + p6;
    let x14 = x13 + b5;
    let x15 = x14 + p7;
    let x16 = x15 + b6;
    assert(s == x16 + p8);
    let r17 = p8;
    lemma_add_assoc(x15, b6, r17);
    let r16 = b6 + r17;
    lemma_add_assoc(x14, p7, r16);
    let r15 = p7 + r16;
    lemma_add_assoc(x13, b5, r15);
    let r14 = b5 + r15;
    lemma_add_assoc(x12, p6, r14);
    let r13 = p6 + r14;
    lemma_add_assoc(x11, b4, r13);
    let r12 = b4 + r13;
    lemma_add_assoc(x10, p5, r12);
    let r11 = p5 + r12;
    lemma_add_assoc(x9, b3, r11);
    let r10 = b3 + r11;
    lemma_add_assoc(x8, p4, r10);
    let r9 = p4 + r10;
    lemma_add_assoc(x7, b2, r9);
    let r8 = b2 + r9;
    lemma_add_assoc(x6, p3, r8);
    let r7 = p3 + r8;
    lemma_add_assoc(x5, b1, r7);
    let r6 = b1 + r7;
    lemma_add_assoc(x4, p2, r6);
    let r5 = p2 + r6;
    lemma_add_assoc(x3, d, r5);
    let r4 = d + r5;
    lemma_add_assoc(x2, p1, r4);
    let r3 = p1 + r4;
    lemma_add_assoc(x1, al, r3);
    let r2 = al + r3;
    assert(s.subrange(0, s.len() as int) =~= s);
    lemma_expect_step(s, 0, p0, r2);
}

proof fn lemma_sor_align_value(c: Config)
    ensures
        spec_scan_align(spec_render_config(c), sp1(c)) == Some((c.alignment, sp2(c))),
{
    let s = spec_render_config(c);
    let p0 = "alignment = \""@;
    let al = spec_align_text(c.alignment);
    let p1 = "\"\nspacing = "@;
    let d = spec_dec_digits(c.spacing as int);
    let p2 = "\nshow_cpu = "@;
    let b1 = spec_bool_text(c.show_cpu);
    let p3 = "\nshow_ram = "@;
    let b2 = spec_bool_text(c.show_ram);
    let p4 = "\nshow_os = "@;
    let b3 = spec_bool_text(c.show_os);
    let p5 = "\nshow_battery = "@;
    let b4 = spec_bool_text(c.show_battery);
    let p6 = "\nshow_disk = "@;
    let b5 = spec_bool_text(c.show_disk);
    let p7 = "\nshow_network = "@;
    let b6 = spec_bool_text(c.show_network);
    let p8 = "\n"@;
    let x1 = p0;
    let x2 = x1 + al;
    let x3 = x2 + p1;
    let x4 = x3 + d;
    let x5 = x4 + p2;
    let x6 = x5 + b1;
    let x7 = x6 + p3;
    let x8 = x7 + b2;
    let x9 = x8 + p4;
    let x10 = x9 + b3;
    let x11 = x10 + p5;
    let x12 = x11 + b4;
    let x13 = x12 + p6;
    let x14 = x13 + b5;
    let x15 = x14 + p7;
    let x16 = x15 + b6;
    assert(s == x16 + p8);
    let r17 = p8;
    lemma_add_assoc(x15, b6, r17);
    let r16 = b6 + r17;
    lemma_add_assoc(x14, p7, r16);
    let r15 = p7 + r16;
    lemma_add_assoc(x13, b5, r15);
    let r14 = b5 + r15;
    lemma_add_assoc(x12, p6, r14);
    let r13 = p6 + r14;
    lemma_add_assoc(x11, b4, r13);
    let r12 = b4 + r13;
    lemma_add_assoc(x10, p5, r12);
    let r11 = p5 + r12;
    lemma_add_assoc(x9, b3, r11);
    let r10 = b3 + r11;
    lemma_add_assoc(x8, p4, r10);
    let r9 = p4 + r10;
    lemma_add_assoc(x7, b2, r9);
    let r8 = b2 + r9;
    lemma_add_assoc(x6, p3, r8);
    let r7 = p3 + r8;
    lemma_add_assoc(x5, b1, r7);
    let r6 = b1 + r7;
    lemma_add_assoc(x4, p2, r6);
    let r5 = p2 + r6;
    lemma_add_assoc(x3, d, r5);
    let r4 = d + r5;
    lemma_add_assoc(x2, p1, r4);
    let r3 = p1 + r4;
    lemma_add_assoc(x1, al, r3);
    let r2 = al + r3;
    lemma_suffix_of_concat(x1, r2, s);
    lemma_scan_align_step(s, sp1(c), c.alignment, r3);
}

proof fn lemma_sor_spacing_key(c: Config)
    ensures
        spec_expect(spec_render_config(c), sp2(c), "\"\nspacing = "@) == Some(sp3(c)),
{
    let s = spec_render_config(c);
    let p0 = "alignment = \""@;
    let al = spec_align_text(c.alignment);
    let p1 = "\"\nspacing = "@;
    let d = spec_dec_digits(c.spacing as int);
    let p2 = "\nshow_cpu = "@;
    let b1 = spec_bool_text(c.show_cpu);
    let p3 = "\nshow_ram = "@;
    let b2 = spec_bool_text(c.show_ram);
    let p4 = "\nshow_os = "@;
    let b3 = spec_bool_text(c.show_os);
    let p5 = "\nshow_battery = "@;
    let b4 = spec_bool_text(c.show_battery);
    let p6 = "\nshow_disk = "@;
    let b5 = spec_bool_text(c.show_disk);
    let p7 = "\nshow_network = "@;
    let b6 = spec_bool_text(c.show_network);
    let p8 = "\n"@;
    let x1 = p0;
    let x2 = x1 + al;
    let x3 = x2 + p1;
    let x4 = x3 + d;
    let x5 = x4 + p2;
    let x6 = x5 + b1;
    let x7 = x6 + p3;
    let x8 = x7 + b2;
    let x9 = x8 + p4;
    let x10 = x9 + b3;
    let x11 = x10 + p5;
    let x12 = x11 + b4;
    let x13 = x12 + p6;
    let x14 = x13 + b5;
    let x15 = x14 + p7;
    let x16 = x15 + b6;
    assert(s == x16 + p8);
    let r17 = p8;
    lemma_add_assoc(x15, b6, r17);
    let r16 = b6 + r17;
    lemma_add_assoc(x14, p7, r16);
    let r15 = p7 + r16;
    lemma_add_assoc(x13, b5, r15);
    let r14 = b5 + r15;
    lemma_add_assoc(x12, p6, r14);
    let r13 = p6 + r14;
    lemma_add_assoc(x11, b4, r13);
    let r12 = b4 + r13;
    lemma_add_assoc(x10, p5, r12);
    let r11 = p5 + r12;
    lemma_add_assoc(x9, b3, r11);
    let r10 = b3 + r11;
    lemma_add_assoc(x8, p4, r10);
    let r9 = p4 + r10;
    lemma_add_assoc(x7, b2, r9);
    let r8 = b2 + r9;
    lemma_add_assoc(x6, p3, r8);
    let r7 = p3 + r8;
    lemma_add_assoc(x5, b1, r7);
    let r6 = b1 + r7;
    lemma_add_assoc(x4, p2, r6);
    let r5 = p2 + r6;
    lemma_add_assoc(x3, d, r5);
    let r4 = d + r5;
    lemma_add_assoc(x2, p1, r4);
    let r3 = p1 + r4;
    lemma_suffix_of_concat(x2, r3, s);
    lemma_expect_step(s, sp2(c), p1, r4);
}

proof fn lemma_sor_spacing_value(c: Config)
    ensures
        spec_scan_u64(spec_render_config(c), sp3(c)) == Some((c.spacing, sp4(c))),
{
    let s = spec_render_config(c);
    let p0 = "alignment = \""@;
    let al = spec_align_text(c.alignment);
    let p1 = "\"\nspacing = "@;
    let d = spec_dec_digits(c.spacing as int);
    let p2 = "\nshow_cpu = "@;
    let b1 = spec_bool_text(c.show_cpu);
    let p3 = "\nshow_ram = "@;
    let b2 = spec_bool_text(c.show_ram);
    let p4 = "\nshow_os = "@;
    let b3 = spec_bool_text(c.show_os);
    let p5 = "\nshow_battery = "@;
    let b4 = spec_bool_text(c.show_battery);
    let p6 = "\nshow_disk = "@;
    let b5 = spec_bool_text(c.show_disk);
    let p7 = "\nshow_network = "@;
    let b6 = spec_bool_text(c.show_network);
    let p8 = "\n"@;
    let x1 = p0;
    let x2 = x1 + al;
    let x3 = x2 + p1;
    let x4 = x3 + d;
    let x5 = x4 + p2;
    let x6 = x5 + b1;
    let x7 = x6 + p3;
    let x8 = x7 + b2;
    let x9 = x8 + p4;
    let x10 = x9 + b3;
    let x11 = x10 + p5;
    let x12 = x11 + b4;
    let x13 = x12 + p6;
    let x14 = x13 + b5;
    let x15 = x14 + p7;
    let x16 = x15 + b6;
    assert(s == x16 + p8);
    let r17 = p8;
    lemma_add_assoc(x15, b6, r17);
    let r16 = b6 + r17;
    lemma_add_assoc(x14, p7, r16);
    let r15 = p7 + r16;
    lemma_add_assoc(x13, b5, r15);
    let r14 = b5 + r15;
    lemma_add_assoc(x12, p6, r14);
    let r13 = p6 + r14;
    lemma_add_assoc(x11, b4, r13);
    let r12 = b4 + r13;
    lemma_add_assoc(x10, p5, r12);
    let r11 = p5 + r12;
    lemma_add_assoc(x9, b3, r11);
    let r10 = b3 + r11;
    lemma_add_assoc(x8, p4, r10);
    let r9 = p4 + r10;
    lemma_add_assoc(x7, b2, r9);
    let r8 = b2 + r9;
    lemma_add_assoc(x6, p3, r8);
    let r7 = p3 + r8;
    lemma_add_assoc(x5, b1, r7);
    let r6 = b1 + r7;
    lemma_add_assoc(x4, p2, r6);
    let r5 = p2 + r6;
    lemma_add_assoc(x3, d, r5);
    let r4 = d + r5;
    lemma_suffix_of_concat(x3, r4, s);
    reveal_strlit("\nshow_cpu = ");
    assert(!is_digit(r5[0])) by {
        assert(r5[0] == '\n');
    }
    lemma_scan_u64_step(s, sp3(c), c.spacing, r5);
}

proof fn lemma_sor_cpu(c: Config)
    ensures
        spec_expect(spec_render_config(c), sp4(c), "\nshow_cpu = "@) == Some(sp5(c)),
        spec_scan_bool(spec_render_config(c), sp5(c)) == Some((c.show_cpu, sp6(c))),
{
    let s = spec_render_config(c);
    let p0 = "alignment = \""@;
    let al = spec_align_text(c.alignment);
    let p1 = "\"\nspacing = "@;
    let d = spec_dec_digits(c.spacing as int);
    let p2 = "\nshow_cpu = "@;
    let b1 = spec_bool_text(c.show_cpu);
    let p3 = "\nshow_ram = "@;
    let b2 = spec_bool_text(c.show_ram);
    let p4 = "\nshow_os = "@;
    let b3 = spec_bool_text(c.show_os);
    let p5 = "\nshow_battery = "@;
    let b4 = spec_bool_text(c.show_battery);
    let p6 = "\nshow_disk = "@;
    let b5 = spec_bool_text(c.show_disk);
    let p7 = "\nshow_network = "@;
    let b6 = spec_bool_text(c.show_network);
    let p8 = "\n"@;
    let x1 = p0;
    let x2 = x1 + al;
    let x3 = x2 + p1;
    let x4 = x3 + d;
    let x5 = x4 + p2;
    let x6 = x5 + b1;
    let x7 = x6 + p3;
    let x8 = x7 + b2;
    let x9 = x8 + p4;
    let x10 = x9 + b3;
    let x11 = x10 + p5;
    let x12 = x11 + b4;
    let x13 = x12 + p6;
    let x14 = x13 + b5;
    let x15 = x14 + p7;
    let x16 = x15 + b6;
    assert(s == x16 + p8);
    let r17 = p8;
    lemma_add_assoc(x15, b6, r17);
    let r16 = b6 + r17;
    lemma_add_assoc(x14, p7, r16);
    let r15 = p7 + r16;
    lemma_add_assoc(x13, b5, r15);
    let r14 = b5 + r15;
    lemma_add_assoc(x12, p6, r14);
    let r13 = p6 + r14;
    lemma_add_assoc(x11, b4, r13);
    let r12 = b4 + r13;
    lemma_add_assoc(x10, p5, r12);
    let r11 = p5 + r12;
    lemma_add_assoc(x9, b3, r11);
    let r10 = b3 + r11;
    lemma_add_assoc(x8, p4, r10);
    let r9 = p4 + r10;
    lemma_add_assoc(x7, b2, r9);
    let r8 = b2 + r9;
    lemma_add_assoc(x6, p3, r8);
    let r7 = p3 + r8;
    lemma_add_assoc(x5, b1, r7);
    let r6 = b1 + r7;
    lemma_add_assoc(x4, p2, r6);
    let r5 = p2 + r6;
    lemma_suffix_of_concat(x4, r5, s);
    lemma_expect_step(s, sp4(c), p2, r6);
    lemma_scan_bool_step(s, sp5(c), c.show_cpu, r7);
}

proof fn lemma_sor_ram(c: Config)
    ensures
        spec_expect(spec_render_config(c), sp6(c), "\nshow_ram = "@) == Some(sp7(c)),
        spec_scan_bool(spec_render_config(c), sp7(c)) == Some((c.show_ram, sp8(c))),
{
    let s = spec_render_config(c);
    let p0 = "alignment = \""@;
    let al = spec_align_text(c.alignment);
    let p1 = "\"\nspacing = "@;
    let d = spec_dec_digits(c.spacing as int);
    let p2 = "\nshow_cpu = "@;
    let b1 = spec_bool_text(c.show_cpu);
    let p3 = "\nshow_ram = "@;
    let b2 = spec_bool_text(c.show_ram);
    let p4 = "\nshow_os = "@;
    let b3 = spec_bool_text(c.show_os);
    let p5 = "\nshow_battery = "@;
    let b4 = spec_bool_text(c.show_battery);
    let p6 = "\nshow_disk = "@;
    let b5 = spec_bool_text(c.show_disk);
    let p7 = "\nshow_network = "@;
    let b6 = spec_bool_text(c.show_network);
    let p8 = "\n"@;
    let x1 = p0;
    let x2 = x1 + al;
    let x3 = x2 + p1;
    let x4 = x3 + d;
    let x5 = x4 + p2;
    let x6 = x5 + b1;
    let x7 = x6 + p3;
    let x8 = x7 + b2;
    let x9 = x8 + p4;
    let x10 = x9 + b3;
    let x11 = x10 + p5;
    let x12 = x11 + b4;
    let x13 = x12 + p6;
    let x14 = x13 + b5;
    let x15 = x14 + p7;
    let x16 = x15 + b6;
    assert(s == x16 + p8);
    let r17 = p8;
    lemma_add_assoc(x15, b6, r17);
    let r16 = b6 + r17;
    lemma_add_assoc(x14, p7, r16);
    let r15 = p7 + r16;
    lemma_add_assoc(x13, b5, r15);
    let r14 = b5 + r15;
    lemma_add_assoc(x12, p6, r14);
    let r13 = p6 + r14;
    lemma_add_assoc(x11, b4, r13);
    let r12 = b4 + r13;
    lemma_add_assoc(x10, p5, r12);
    let r11 = p5 + r12;
    lemma_add_assoc(x9, b3, r11);
    let r10 = b3 + r11;
    lemma_add_assoc(x8, p4, r10);
    let r9 = p4 + r10;
    lemma_add_assoc(x7, b2, r9);
    let r8 = b2 + r9;
    lemma_add_assoc(x6, p3, r8);
    let r7 = p3 + r8;
    lemma_suffix_of_concat(x6, r7, s);
    lemma_expect_step(s, sp6(c), p3, r8);
    lemma_scan_bool_step(s, sp7(c), c.show_ram, r9);
}

proof fn lemma_sor_os(c: Config)
    ensures
        spec_expect(spec_render_config(c), sp8(c), "\nshow_os = "@) == Some(sp9(c)),
        spec_scan_bool(spec_render_config(c), sp9(c)) == Some((c.show_os, sp10(c))),
{
    let s = spec_render_config(c);
    let p0 = "alignment = \""@;
    let al = spec_align_text(c.alignment);
    let p1 = "\"\nspacing = "@;
    let d = spec_dec_digits(c.spacing as int);
    let p2 = "\nshow_cpu = "@;
    let b1 = spec_bool_text(c.show_cpu);
    let p3 = "\nshow_ram = "@;
    let b2 = spec_bool_text(c.show_ram);
    let p4 = "\nshow_os = "@;
    let b3 = spec_bool_text(c.show_os);
    let p5 = "\nshow_battery = "@;
    let b4 = spec_bool_text(c.show_battery);
    let p6 = "\nshow_disk = "@;
    let b5 = spec_bool_text(c.show_disk);
    let p7 = "\nshow_network = "@;
    let b6 = spec_bool_text(c.show_network);
    let p8 = "\n"@;
    let x1 = p0;
    let x2 = x1 + al;
    let x3 = x2 + p1;
    let x4 = x3 + d;
    let x5 = x4 + p2;
    let x6 = x5 + b1;
    let x7 = x6 + p3;
    let x8 = x7 + b2;
    let x9 = x8 + p4;
    let x10 = x9 + b3;
    let x11 = x10 + p5;
    let x12 = x11 + b4;
    let x13 = x12 + p6;
    let x14 = x13 + b5;
    let x15 = x14 + p7;
    let x16 = x15 + b6;
    assert(s == x16 + p8);
    let r17 = p8;
    lemma_add_assoc(x15, b6, r17);
    let r16 = b6 + r17;
    lemma_add_assoc(x14, p7, r16);
    let r15 = p7 + r16;
    lemma_add_assoc(x13, b5, r15);
    let r14 = b5 + r15;
    lemma_add_assoc(x12, p6, r14);
    let r13 = p6 + r14;
    lemma_add_assoc(x11, b4, r13);
    let r12 = b4 + r13;
    lemma_add_assoc(x10, p5, r12);
    let r11 = p5 + r12;
    lemma_add_assoc(x9, b3, r11);
    let r10 = b3 + r11;
    lemma_add_assoc(x8, p4, r10);
    let r9 = p4 + r10;
    lemma_suffix_of_concat(x8, r9, s);
    lemma_expect_step(s, sp8(c), p4, r10);
    lemma_scan_bool_step(s, sp9(c), c.show_os, r11);
}

proof fn lemma_sor_battery(c: Config)
    ensures
        spec_expect(spec_render_config(c), sp10(c), "\nshow_battery = "@) == Some(sp11(c)),
        spec_scan_bool(spec_render_config(c), sp11(c)) == Some((c.show_battery, sp12(c))),
{
    let s = spec_render_config(c);
    let p0 = "alignment = \""@;
    let al = spec_align_text(c.alignment);
    let p1 = "\"\nspacing = "@;
    let d = spec_dec_digits(c.spacing as int);
    let p2 = "\nshow_cpu = "@;
    let b1 = spec_bool_text(c.show_cpu);
    let p3 = "\nshow_ram = "@;
    let b2 = spec_bool_text(c.show_ram);
    let p4 = "\nshow_os = "@;
    let b3 = spec_bool_text(c.show_os);
    let p5 = "\nshow_battery = "@;
    let b4 = spec_bool_text(c.show_battery);
    let p6 = "\nshow_disk = "@;
    let b5 = spec_bool_text(c.show_disk);
    let p7 = "\nshow_network = "@;
    let b6 = spec_bool_text(c.show_network);
    let p8 = "\n"@;
    let x1 = p0;
    let x2 = x1 + al;
    let x3 = x2 + p1;
    let x4 = x3 + d;
    let x5 = x4 + p2;
    let x6 = x5 + b1;
    let x7 = x6 + p3;
    let x8 = x7 + b2;
    let x9 = x8 + p4;
    let x10 = x9 + b3;
    let x11 = x10 + p5;
    let x12 = x11 + b4;
    let x13 = x12 + p6;
    let x14 = x13 + b5;
    let x15 = x14 + p7;
    let x16 = x15 + b6;
    assert(s == x16 + p8);
    let r17 = p8;
    lemma_add_assoc(x15, b6, r17);
    let r16 = b6 + r17;
    lemma_add_assoc(x14, p7, r16);
    let r15 = p7 + r16;
    lemma_add_assoc(x13, b5, r15);
    let r14 = b5 + r15;
    lemma_add_assoc(x12, p6, r14);
    let r13 = p6 + r14;
    lemma_add_assoc(x11, b4, r13);
    let r12 = b4 + r13;
    lemma_add_assoc(x10, p5, r12);
    let r11 = p5 + r12;
    lemma_suffix_of_concat(x10, r11, s);
    lemma_expect_step(s, sp10(c), p5, r12);
    lemma_scan_bool_step(s, sp11(c), c.show_battery, r13);
}

proof fn lemma_sor_disk(c: Config)
    ensures
        spec_expect(spec_render_config(c), sp12(c), "\nshow_disk = "@) == Some(sp13(c)),
        spec_scan_bool(spec_render_config(c), sp13(c)) == Some((c.show_disk, sp14(c))),
{
    let s = spec_render_config(c);
    let p0 = "alignment = \""@;
    let al = spec_align_text(c.alignment);
    let p1 = "\"\nspacing = "@;
    let d = spec_dec_digits(c.spacing as int);
    let p2 = "\nshow_cpu = "@;
    let b1 = spec_bool_text(c.show_cpu);
    let p3 = "\nshow_ram = "@;
    let b2 = spec_bool_text(c.show_ram);
    let p4 = "\nshow_os = "@;
    let b3 = spec_bool_text(c.show_os);
    let p5 = "\nshow_battery = "@;
    let b4 = spec_bool_text(c.show_battery);
    let p6 = "\nshow_disk = "@;
    let b5 = spec_bool_text(c.show_disk);
    let p7 = "\nshow_network = "@;
    let b6 = spec_bool_text(c.show_network);
    let p8 = "\n"@;
    let x1 = p0;
    let x2 = x1 + al;
    let x3 = x2 + p1;
    let x4 = x3 + d;
    let x5 = x4 + p2;
    let x6 = x5 + b1;
    let x7 = x6 + p3;
    let x8 = x7 + b2;
    let x9 = x8 + p4;
    let x10 = x9 + b3;
    let x11 = x10 + p5;
    let x12 = x11 + b4;
    let x13 = x12 + p6;
    let x14 = x13 + b5;
    let x15 = x14 + p7;
    let x16 = x15 + b6;
    assert(s == x16 + p8);
    let r17 = p8;
    lemma_add_assoc(x15, b6, r17);
    let r16 = b6 + r17;
    lemma_add_assoc(x14, p7, r16);
    let r15 = p7 + r16;
    lemma_add_assoc(x13, b5, r15);
    let r14 = b5 + r15;
    lemma_add_assoc(x12, p6, r14);
    let r13 = p6 + r14;
    lemma_suffix_of_concat(x12, r13, s);
    lemma_expect_step(s, sp12(c), p6, r14);
    lemma_scan_bool_step(s, sp13(c), c.show_disk, r15);
}

proof fn lemma_sor_network(c: Config)
    ensures
        spec_expect(spec_render_config(c), sp14(c), "\nshow_network = "@) == Some(sp15(c)),
        spec_scan_bool(spec_render_config(c), sp15(c)) == Some((c.show_network, sp16(c))),
{
    let s = spec_render_config(c);
    let p0 = "alignment = \""@;
    let al = spec_align_text(c.alignment);
    let p1 = "\"\nspacing = "@;
    let d = spec_dec_digits(c.spacing as int);
    let p2 = "\nshow_cpu = "@;
    let b1 = spec_bool_text(c.show_cpu);
    let p3 = "\nshow_ram = "@;
    let b2 = spec_bool_text(c.show_ram);
    let p4 = "\nshow_os = "@;
    let b3 = spec_bool_text(c.show_os);
    let p5 = "\nshow_battery = "@;
    let b4 = spec_bool_text(c.show_battery);
    let p6 = "\nshow_disk = "@;
    let b5 = spec_bool_text(c.show_disk);
    let p7 = "\nshow_network = "@;
    let b6 = spec_bool_text(c.show_network);
    let p8 = "\n"@;
    let x1 = p0;
    let x2 = x1 + al;
    let x3 = x2 + p1;
    let x4 = x3 + d;
    let x5 = x4 + p2;
    let x6 = x5 + b1;
    let x7 = x6 + p3;
    let x8 = x7 + b2;
    let x9 = x8 + p4;
    let x10 = x9 + b3;
    let x11 = x10 + p5;
    let x12 = x11 + b4;
    let x13 = x12 + p6;
    let x14 = x13 + b5;
    let x15 = x14 + p7;
    let x16 = x15 + b6;
    assert(s == x16 + p8);
    let r17 = p8;
    lemma_add_assoc(x15, b6, r17);
    let r16 = b6 + r17;
    lemma_add_assoc(x14, p7, r16);
    let r15 = p7 + r16;
    lemma_suffix_of_concat(x14, r15, s);
    lemma_expect_step(s, sp14(c), p7, r16);
    lemma_scan_bool_step(s, sp15(c), c.show_network, r17);
}

proof fn lemma_sor_end(c: Config)
    ensures
        spec_expect(spec_render_config(c), sp16(c), "\n"@) == Some(sp17(c)),
        sp17(c) == spec_render_config(c).len(),
{
    let s = spec_render_config(c);
    let p0 = "alignment = \""@;
    let al = spec_align_text(c.alignment);
    let p1 = "\"\nspacing = "@;
    let d = spec_dec_digits(c.spacing as int);
    let p2 = "\nshow_cpu = "@;
    let b1 = spec_bool_text(c.show_cpu);
    let p3 = "\nshow_ram = "@;
    let b2 = spec_bool_text(c.show_ram);
    let p4 = "\nshow_os = "@;
    let b3 = spec_bool_text(c.show_os);
    let p5 = "\nshow_battery = "@;
    let b4 = spec_bool_text(c.show_battery);
    let p6 = "\nshow_disk = "@;
    let b5 = spec_bool_text(c.show_disk);
    let p7 = "\nshow_network = "@;
    let b6 = spec_bool_text(c.show_network);
    let p8 = "\n"@;
    let x1 = p0;
    let x2 = x1 + al;
    let x3 = x2 + p1;
    let x4 = x3 + d;
    let x5 = x4 + p2;
    let x6 = x5 + b1;
    let x7 = x6 + p3;
    let x8 = x7 + b2;
    let x9 = x8 + p4;
    let x10 = x9 + b3;
    let x11 = x10 + p5;
    let x12 = x11 + b4;
    let x13 = x12 + p6;
    let x14 = x13 + b5;
    let x15 = x14 + p7;
    let x16 = x15 + b6;
    assert(s == x16 + p8);
    let r17 = p8;
    lemma_suffix_of_concat(x16, r17, s);
    lemma_expect_step(s, sp16(c), p8, Seq::<char>::empty());
    assert(s.subrange(sp17(c), s.len() as int).len() == 0);
}

/// Round trip, one direction: scanning the canonical text of a
/// configuration recovers exactly that configuration.
#[verifier::rlimit(100)]
pub proof fn lemma_scan_of_render(c: Config)
    ensures
        spec_scan_config(spec_render_config(c)) == Some(c),
{
    lemma_sor_align_key(c);
    lemma_sor_align_value(c);
    lemma_sor_spacing_key(c);
    lemma_sor_spacing_value(c);
    lemma_sor_cpu(c);
    lemma_sor_ram(c);
    lemma_sor_os(c);
    lemma_sor_battery(c);
    lemma_sor_disk(c);
    lemma_sor_network(c);
    lemma_sor_end(c);
}

/// No two distinct configurations share their canonical text.
pub proof fn lemma_render_config_injective(c1: Config, c2: Config)
    requires
        spec_render_config(c1) == spec_render_config(c2),
    ensures
        c1 == c2,
{
    lemma_scan_of_render(c1);
    lemma_scan_of_render(c2);
}

/// The numeric value of a digit character, if it is one.
fn digit_of(c: char) -> (r: Option<u64>)
    ensures
        r is Some <==> is_digit(c),
        r matches Some(d) ==> d < 10 && d as int == char_digit(c),
{
    match c {
        '0' => Some(0),
        '1' => Some(1),
        '2' => Some(2),
        '3' => Some(3),
        '4' => Some(4),
        '5' => Some(5),
        '6' => Some(6),
        '7' => Some(7),
        '8' => Some(8),
        '9' => Some(9),
        _ => None,
    }
}

/// Compare the characters of `lit` against `s` at position `i`.
fn expect_lit(s: &str, slen: usize, i: usize, lit: &str) -> (r: Option<usize>)
    requires
        slen == s@.len(),
        i <= slen,
    ensures
        r is Some <==> spec_expect(s@, i as int, lit@) is Some,
        r matches Some(j) ==> spec_expect(s@, i as int, lit@) == Some(j as int) && i <= j <= slen,
{
    let n = lit.unicode_len();
    if n > slen - i {
        return None;
    }
    let mut k: usize = 0;
    while k < n
        invariant
            slen == s@.len(),
            n == lit@.len(),
            i + n <= slen,
            k <= n,
            forall|m: int| 0 <= m < k ==> s@[i + m] == lit@[m],
        decreases n - k,
    {
        let a = s.get_char(i + k);
        let b = lit.get_char(k);
        if a != b {
            proof {
                lemma_expect_mismatch(s@, i as int, lit@, k as int);
            }
            return None;
        }
        k += 1;
    }
    proof {
        assert(s@.subrange(i as int, i as int + n as int) =~= lit@) by {
            assert(forall|m: int|
                0 <= m < n ==> #[trigger] s@.subrange(i as int, i as int + n as int)[m] == s@[i
                    + m]);
        }
    }
    Some(i + n)
}

/// Read an alignment word at position `i`.
fn scan_align(s: &str, slen: usize, i: usize) -> (r: Option<(Alignment, usize)>)
    requires
        slen == s@.len(),
        i <= slen,
    ensures
        r is Some <==> spec_scan_align(s@, i as int) is Some,
        r matches Some(p) ==> spec_scan_align(s@, i as int) == Some((p.0, p.1 as int)) && i <= p.1
            <= slen,
{
    match expect_lit(s, slen, i, "left") {
        Some(j) => Some((Alignment::Left, j)),
        None => match expect_lit(s, slen, i, "right") {
            Some(j) => Some((Alignment::Right, j)),
            None => None,
        },
    }
}

/// Read a boolean word at position `i`.
fn scan_bool(s: &str, slen: usize, i: usize) -> (r: Option<(bool, usize)>)
    requires
        slen == s@.len(),
        i <= slen,
    ensures
        r is Some <==> spec_scan_bool(s@, i as int) is Some,
        r matches Some(p) ==> spec_scan_bool(s@, i as int) == Some((p.0, p.1 as int)) && i <= p.1
            <= slen,
{
    match expect_lit(s, slen, i, "true") {
        Some(j) => Some((true, j)),
        None => match expect_lit(s, slen, i, "false") {
            Some(j) => Some((false, j)),
            None => None,
        },
    }
}

/// Read a nonempty digit run at position `i` as a `u64`.
fn scan_u64(s: &str, slen: usize, i: usize) -> (r: Option<(u64, usize)>)
    requires
        slen == s@.len(),
        i <= slen,
    ensures
        r is Some <==> spec_scan_u64(s@, i as int) is Some,
        r matches Some(p) ==> spec_scan_u64(s@, i as int) == Some((p.0, p.1 as int)) && i <= p.1
            <= slen,
{
    let mut j: usize = i;
    let mut going: bool = true;
    while going
        invariant
            slen == s@.len(),
            i <= j <= slen,
            forall|m: int| i <= m < j ==> is_digit(#[trigger] s@[m]),
            !going ==> j == slen || !is_digit(s@[j as int]),
        decreases slen - j + (if going {
            1int
        } else {
            0int
        }),
    {
        if j < slen {
            let c = s.get_char(j);
            if digit_of(c).is_some() {
                j += 1;
            } else {
                going = false;
            }
        } else {
            going = false;
        }
    }
    proof {
        assert(all_digits(s@.subrange(i as int, j as int))) by {
            assert(forall|m: int|
                0 <= m < j - i ==> is_digit(#[trigger] s@.subrange(i as int, j as int)[m]));
        }
        lemma_digit_run_end_is(s@, i as int, j as int);
    }
    if j == i {
        return None;
    }
    let mut v: u64 = 0;
    let mut k: usize = i;
    while k < j
        invariant
            slen == s@.len(),
            i <= k <= j <= slen,
            forall|m: int| i <= m < j ==> is_digit(#[trigger] s@[m]),
            digit_run_end(s@, i as int) == j as int,
            v as int == digits_value(s@.subrange(i as int, k as int)),
        decreases j - k,
    {
        let c = s.get_char(k);
        let dopt = digit_of(c);
        if dopt.is_none() {
            proof {
                assert(false);
            }
            return None;
        }
        let d = dopt.unwrap();
        if v > (u64::MAX - d) / 10 {
            proof {
                lemma_digits_value_snoc(s@, i as int, k as int);
                lemma_digits_value_mono(s@, i as int, k as int + 1, j as int);
            }
            return None;
        }
        v = v * 10 + d;
        proof {
            lemma_digits_value_snoc(s@, i as int, k as int);
        }
        k += 1;
    }
    Some((v, j))
}

/// Run the whole scan, mirroring `spec_scan_config`.
#[verifier::rlimit(100)]
fn scan_config(s: &str) -> (r: Option<Config>)
    ensures
        r == spec_scan_config(s@),
{
    let slen: usize = s.unicode_len();
    let i1 = match expect_lit(s, slen, 0, "alignment = \"") {
        Some(j) => j,
        None => {
            return None;
        },
    };
    let (alignment, i2) = match scan_align(s, slen, i1) {
        Some(p) => p,
        None => {
            return None;
        },
    };
    let i3 = match expect_lit(s, slen, i2, "\"\nspacing = ") {
        Some(j) => j,
        None => {
            return None;
        },
    };
    let (spacing, i4) = match scan_u64(s, slen, i3) {
        Some(p) => p,
        None => {
            return None;
        },
    };
    let i5 = match expect_lit(s, slen, i4, "\nshow_cpu = ") {
        Some(j) => j,
        None => {
            return None;
        },
    };
    let (show_cpu, i6) = match scan_bool(s, slen, i5) {
        Some(p) => p,
        None => {
            return None;
        },
    };
    let i7 = match expect_lit(s, slen, i6, "\nshow_ram = ") {
        Some(j) => j,
        None => {
            return None;
        },
    };
    let (show_ram, i8) = match scan_bool(s, slen, i7) {
        Some(p) => p,
        None => {
            return None;
        },
    };
    let i9 = match expect_lit(s, slen, i8, "\nshow_os = ") {
        Some(j) => j,
        None => {
            return None;
        },
    };
    let (show_os, i10) = match scan_bool(s, slen, i9) {
        Some(p) => p,
        None => {
            return None;
        },
    };
    let i11 = match expect_lit(s, slen, i10, "\nshow_battery = ") {
        Some(j) => j,
        None => {
            return None;
        },
    };
    let (show_battery, i12) = match scan_bool(s, slen, i11) {
        Some(p) => p,
        None => {
            return None;
        },
    };
    let i13 = match expect_lit(s, slen, i12, "\nshow_disk = ") {
        Some(j) => j,
        None => {
            return None;
        },
    };
    let (show_disk, i14) = match scan_bool(s, slen, i13) {
        Some(p) => p,
        None => {
            return None;
        },
    };
    let i15 = match expect_lit(s, slen, i14, "\nshow_network = ") {
        Some(j) => j,
        None => {
            return None;
        },
    };
    let (show_network, i16) = match scan_bool(s, slen, i15) {
        Some(p) => p,
        None => {
            return None;
        },
    };
    let i17 = match expect_lit(s, slen, i16, "\n") {
        Some(j) => j,
        None => {
            return None;
        },
    };
    if i17 == slen {
        Some(
            Config {
                alignment,
                spacing,
                show_cpu,
                show_ram,
                show_os,
                show_battery,
                show_disk,
                show_network,
            },
        )
    } else {
        None
    }
}

/// Deserialize configuration text. Succeeds exactly on the canonical
/// rendering of some configuration, and returns that configuration;
/// anything else is a parse error.
pub fn parse_config(s: &str) -> (r: Result<Config, FetchError>)
    ensures
        r is Ok <==> (exists|c: Config| s@ == spec_render_config(c)),
        r matches Ok(c) ==> s@ == spec_render_config(c),
        r matches Err(e) ==> e == FetchError::Parse,
{
    match scan_config(s) {
        Some(c) => {
            let rendered = render_config(&c);
            let owned = String::from_str(s);
            if rendered == owned {
                Ok(c)
            } else {
                proof {
                    if exists|c0: Config| s@ == spec_render_config(c0) {
                        let c0 = choose|c0: Config| s@ == spec_render_config(c0);
                        lemma_scan_of_render(c0);
                        assert(false);
                    }
                }
                Err(FetchError::Parse)
            }
        },
        None => {
            proof {
                if exists|c0: Config| s@ == spec_render_config(c0) {
                    let c0 = choose|c0: Config| s@ == spec_render_config(c0);
                    lemma_scan_of_render(c0);
                    assert(false);
                }
            }
            Err(FetchError::Parse)
        },
    }
}

} // verus!

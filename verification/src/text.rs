//! Panel text: printable-ASCII clamping and the small decimal and hexadecimal
//! formatters every row is written with.
use vstd::prelude::*;
use vstd::string::*;
use vstd::utf8::*;

verus! {

/// The bytes the panel's faces can draw.
pub open spec fn printable(b: u8) -> bool {
    0x20 <= b <= 0x7E
}

pub open spec fn all_printable(s: Seq<u8>) -> bool {
    forall|i: int| 0 <= i < s.len() ==> printable(#[trigger] s[i])
}

/// What is shown for one byte: itself when printable, else a question mark.
pub open spec fn shown_byte(b: u8) -> u8 {
    if printable(b) {
        b
    } else {
        0x3F
    }
}

/// What a text field of `cap` bytes holds after `src` is written to it.
pub open spec fn fitted(src: Seq<u8>, cap: nat) -> Seq<u8> {
    Seq::new(if src.len() <= cap { src.len() } else { cap }, |i: int| shown_byte(src[i]))
}

/// Whatever is written to a text field, it holds printable text of at most its
/// width: the head of the text, byte for byte, with a question mark for each
/// byte that the faces cannot draw. Printable text that fits is held as it is.
pub proof fn law_field_text_is_printable(src: Seq<u8>, cap: nat)
    ensures
        all_printable(fitted(src, cap)),
        fitted(src, cap).len() <= cap,
        fitted(src, cap).len() <= src.len(),
        fitted(src, cap).len() == cap || fitted(src, cap).len() == src.len(),
        forall|i: int|
            0 <= i < fitted(src, cap).len() && 0x20 <= src[i] <= 0x7E ==> #[trigger] fitted(
                src,
                cap,
            )[i] == src[i],
        forall|i: int|
            0 <= i < fitted(src, cap).len() && !(0x20 <= src[i] <= 0x7E) ==> #[trigger] fitted(
                src,
                cap,
            )[i] == 0x3F,
        all_printable(src) && src.len() <= cap ==> fitted(src, cap) == src,
{
    if all_printable(src) && src.len() <= cap {
        assert(fitted(src, cap) =~= src);
    }
}

/// ASCII bytes read as characters.
pub open spec fn chars_of(bytes: Seq<u8>) -> Seq<char> {
    bytes.map_values(|b: u8| b as char)
}

/// ASCII bytes are well-formed UTF-8.
pub proof fn lemma_ascii_is_utf8(bytes: Seq<u8>)
    requires
        forall|i: int| 0 <= i < bytes.len() ==> (#[trigger] bytes[i]) < 0x80,
    ensures
        valid_utf8(bytes),
{
    let chars = chars_of(bytes);
    assert(is_ascii_chars(chars));
    is_ascii_chars_encode_utf8(chars);
    assert(encode_utf8(chars) =~= bytes);
    encode_utf8_valid_utf8(chars);
}

/// A string whose bytes are ASCII reads as those bytes, one character each.
pub proof fn lemma_ascii_chars(s: &str)
    requires
        forall|i: int| 0 <= i < s.spec_bytes().len() ==> (#[trigger] s.spec_bytes()[i]) < 0x80,
    ensures
        s@ == chars_of(s.spec_bytes()),
{
    let bytes = s.spec_bytes();
    let chars = chars_of(bytes);
    assert(is_ascii_chars(chars));
    is_ascii_chars_encode_utf8(chars);
    assert(encode_utf8(chars) =~= bytes);
    encode_utf8_decode_utf8(chars);
    encode_utf8_decode_utf8(s@);
}

/// `core::str::from_utf8`: the bytes as a string exactly when they are
/// well-formed UTF-8, and then unchanged.
#[verifier::external_body]
fn utf8_str(b: &[u8]) -> (r: Option<&str>)
    ensures
        r is Some <==> valid_utf8(b@),
        r matches Some(s) ==> s.spec_bytes() == b@,
{
    core::str::from_utf8(b).ok()
}

/// What a byte buffer reads as: itself, or a question mark where it is no
/// UTF-8.
pub open spec fn utf8_or_mark(b: Seq<u8>) -> Seq<u8> {
    if valid_utf8(b) {
        b
    } else {
        "?".spec_bytes()
    }
}

/// A buffer reads as a question mark exactly where it is no UTF-8 (or is one),
/// and as itself everywhere else.
pub proof fn law_unreadable_bytes_are_a_mark(b: Seq<u8>)
    ensures
        valid_utf8(b) ==> utf8_or_mark(b) == b,
        !valid_utf8(b) ==> utf8_or_mark(b) == seq![0x3Fu8],
{
    reveal_strlit("?");
    assert(is_ascii("?"));
    assert("?".spec_bytes() =~= seq![0x3Fu8]);
}

/// `&str` over an ASCII-filled buffer; bytes that are no UTF-8 read as `?`.
pub fn str_ascii(b: &[u8]) -> (r: &str)
    ensures
        r.spec_bytes() == utf8_or_mark(b@),
        all_printable(b@) ==> r.spec_bytes() == b@ && r@ == chars_of(b@),
{
    proof {
        if all_printable(b@) {
            lemma_ascii_is_utf8(b@);
        }
    }
    match utf8_str(b) {
        Some(s) => {
            proof {
                if all_printable(b@) {
                    lemma_ascii_chars(s);
                }
            }
            s
        },
        None => "?",
    }
}

/// Copy `src` into `dst` as printable ASCII, truncating at the buffer; `len`
/// becomes the number of bytes written. All menu text passes through here.
pub fn put_ascii(dst: &mut [u8], len: &mut u8, src: &[u8])
    requires
        old(dst)@.len() <= u8::MAX || src@.len() <= u8::MAX,
    ensures
        final(dst)@.len() == old(dst)@.len(),
        *final(len) == fitted(src@, old(dst)@.len()).len(),
        final(dst)@.take(*final(len) as int) == fitted(src@, old(dst)@.len()),
        final(dst)@.skip(*final(len) as int) == old(dst)@.skip(*final(len) as int),
{
    *len = 0;
    let cap: usize = dst.len();
    let mut i: usize = 0;
    while i < src.len() && i < cap
        invariant
            i <= src@.len(),
            i <= cap,
            cap == dst@.len(),
            cap == old(dst)@.len(),
            *len == i,
            cap <= u8::MAX || src@.len() <= u8::MAX,
            dst@.skip(i as int) == old(dst)@.skip(i as int),
            forall|k: int| 0 <= k < i ==> dst@[k] == shown_byte(src@[k]),
        decreases src@.len() - i,
    {
        let b: u8 = src[i];
        let ghost before = dst@;
        dst[i] = if 0x20 <= b && b <= 0x7E {
            b
        } else {
            0x3F
        };
        *len += 1;
        i += 1;
        assert(dst@.skip(i as int) =~= before.skip(i - 1).skip(1));
        assert(old(dst)@.skip(i as int) =~= old(dst)@.skip(i - 1).skip(1));
    }
    assert(dst@.take(i as int) =~= fitted(src@, cap as nat));
}

/// An applet's name for something, as the panel shows it: a name the faces
/// cannot draw reads as a calm `--`.
pub open spec fn calm_name(s: Seq<char>) -> Seq<char> {
    if all_printable(encode_utf8(s)) {
        s
    } else {
        "--"@
    }
}

/// Whether every byte of `s` is printable ASCII.
fn is_printable(s: &str) -> (r: bool)
    ensures
        r == all_printable(s.spec_bytes()),
{
    let b = s.as_bytes();
    let mut i: usize = 0;
    while i < b.len()
        invariant
            i <= b@.len(),
            b@ == s.spec_bytes(),
            forall|k: int| 0 <= k < i ==> printable(#[trigger] b@[k]),
        decreases b@.len() - i,
    {
        if b[i] < 0x20 || b[i] > 0x7E {
            assert(!printable(b@[i as int]));
            return false;
        }
        i += 1;
    }
    true
}

/// A name mapper's fallback may be a non-ASCII dash; "not recorded / unknown"
/// must read as `--`, never as a question-marked error.
pub fn ascii_name<'a>(s: &'a str) -> (r: &'a str)
    ensures
        r@ == calm_name(s@),
{
    if is_printable(s) {
        s
    } else {
        "--"
    }
}

/// Whether two strings are the same text.
pub fn same_text(a: &str, b: &str) -> (r: bool)
    ensures
        r == (a@ == b@),
{
    let x = a.as_bytes();
    let y = b.as_bytes();
    if x.len() != y.len() {
        return false;
    }
    let mut i: usize = 0;
    while i < x.len()
        invariant
            i <= x@.len(),
            x@.len() == y@.len(),
            x@ == a.spec_bytes(),
            y@ == b.spec_bytes(),
            forall|k: int| 0 <= k < i ==> x@[k] == y@[k],
        decreases x@.len() - i,
    {
        if x[i] != y[i] {
            return false;
        }
        i += 1;
    }
    proof {
        assert(x@ =~= y@);
        encode_utf8_decode_utf8(a@);
        encode_utf8_decode_utf8(b@);
    }
    true
}

/// The decimal digits of `n`, most significant first, without leading zeros.
pub open spec fn dec(n: nat) -> Seq<u8>
    decreases n,
{
    if n < 10 {
        seq![(0x30 + n) as u8]
    } else {
        dec(n / 10).push((0x30 + n % 10) as u8)
    }
}

/// What a buffer of `cap` bytes shows of a number: its last `cap` digits.
pub open spec fn dec_in(n: nat, cap: nat) -> Seq<u8> {
    if dec(n).len() <= cap {
        dec(n)
    } else {
        dec(n).skip(dec(n).len() - cap)
    }
}

/// Ten to the power `k`.
pub open spec fn ten_to(k: nat) -> nat
    decreases k,
{
    if k == 0 {
        1
    } else {
        10 * ten_to((k - 1) as nat)
    }
}

/// The digits are printable, and `n` has at most `k` of them exactly when it
/// is below ten to the `k`.
pub proof fn lemma_dec(n: nat, k: nat)
    requires
        k >= 1,
    ensures
        all_printable(dec(n)),
        dec(n).len() >= 1,
        dec(n).len() <= k <==> n < ten_to(k),
    decreases n,
{
    reveal_with_fuel(ten_to, 2);
    assert(ten_to(1) == 10);
    lemma_ten_to_positive(k);
    if n < 10 {
        if k > 1 {
            lemma_ten_to_positive((k - 1) as nat);
        }
    } else {
        lemma_dec(n / 10, if k == 1 { 1 } else { (k - 1) as nat });
    }
}

proof fn lemma_ten_to_positive(k: nat)
    ensures
        ten_to(k) >= 1,
    decreases k,
{
    if k > 0 {
        lemma_ten_to_positive((k - 1) as nat);
    }
}

/// A number has as many digits as it takes: at most five for a `u16`, ten for
/// a `u32`, twenty for a `u64`.
pub proof fn lemma_dec_width(n: nat)
    ensures
        n < 1000 ==> dec(n).len() <= 3,
        n < 10_000 ==> dec(n).len() <= 4,
        n <= u16::MAX ==> dec(n).len() <= 5,
        n <= u32::MAX ==> dec(n).len() <= 10,
        n <= u64::MAX ==> dec(n).len() <= 20,
        dec(n).len() >= 1,
        all_printable(dec(n)),
{
    assert(ten_to(20) == 100_000_000_000_000_000_000 && ten_to(10) == 10_000_000_000 && ten_to(5)
        == 100_000 && ten_to(4) == 10_000 && ten_to(3) == 1000) by {
        reveal_with_fuel(ten_to, 21);
    }
    lemma_dec(n, 3);
    lemma_dec(n, 4);
    lemma_dec(n, 5);
    lemma_dec(n, 10);
    lemma_dec(n, 20);
}

/// How many digits a number has.
pub fn digit_count(v: u64) -> (r: usize)
    ensures
        r == dec(v as nat).len(),
{
    let mut rest: u64 = v;
    let mut k: usize = 1;
    proof {
        lemma_dec_width(v as nat);
    }
    while rest >= 10
        invariant
            k + dec(rest as nat).len() == dec(v as nat).len() + 1,
            dec(v as nat).len() <= 20,
        decreases rest,
    {
        proof {
            lemma_dec((rest / 10) as nat, 1);
        }
        rest /= 10;
        k += 1;
    }
    k
}

/// Decimal-format `v` into `out`, returning the used prefix. A buffer too short
/// for all of the digits holds the last of them.
pub fn write_dec_u64(out: &mut [u8], v: u64) -> (r: &str)
    requires
        old(out)@.len() >= 1,
    ensures
        r.spec_bytes() == dec_in(v as nat, old(out)@.len()),
        final(out)@ == dec_in(v as nat, old(out)@.len()) + old(out)@.skip(
            dec_in(v as nat, old(out)@.len()).len() as int,
        ),
{
    let ghost start = out@;
    let ghost all = dec(v as nat);
    let n: usize = out.len();
    let m: usize = digit_count(v);
    let k: usize = if m <= n {
        m
    } else {
        n
    };
    proof {
        lemma_dec(v as nat, 1);
    }
    let mut rest: u64 = v;
    let mut i: usize = k;
    assert(all.take(m as int) =~= all);
    while i > 0
        invariant
            all == dec(v as nat),
            m == all.len(),
            k <= m,
            k <= n,
            n == out@.len(),
            n == start.len(),
            i <= k,
            m - k + i > 0 ==> dec(rest as nat) == all.take(m - k + i),
            forall|j: int| i <= j < k ==> out@[j] == all[m - k + j],
            forall|j: int| k <= j < n ==> out@[j] == start[j],
        decreases i,
    {
        let ghost p = m - k + i;
        let ghost was = rest;
        assert(dec(was as nat).last() == (0x30 + was % 10) as u8);
        assert(dec(was as nat).last() == all[p - 1]);
        if rest >= 10 {
            assert(all.take(p - 1) =~= dec(was as nat).drop_last());
            assert(dec((was / 10) as nat) =~= dec(was as nat).drop_last());
        }
        i -= 1;
        out[i] = 0x30 + (rest % 10) as u8;
        rest /= 10;
    }
    let ghost text = dec_in(v as nat, n as nat);
    assert(out@.subrange(0, k as int) =~= text);
    assert(out@ =~= text + start.skip(k as int));
    str_ascii(&out[0..k])
}

/// Decimal-format `v` into `out`, returning the used prefix.
pub fn write_dec_u32(out: &mut [u8], v: u32) -> (r: &str)
    requires
        old(out)@.len() >= 1,
    ensures
        r.spec_bytes() == dec_in(v as nat, old(out)@.len()),
        final(out)@ == dec_in(v as nat, old(out)@.len()) + old(out)@.skip(
            dec_in(v as nat, old(out)@.len()).len() as int,
        ),
{
    write_dec_u64(out, v as u64)
}

/// Decimal-format `v` into `out`, returning the used prefix.
pub fn write_dec(out: &mut [u8], v: u16) -> (r: &str)
    requires
        old(out)@.len() >= 1,
    ensures
        r.spec_bytes() == dec_in(v as nat, old(out)@.len()),
        final(out)@ == dec_in(v as nat, old(out)@.len()) + old(out)@.skip(
            dec_in(v as nat, old(out)@.len()).len() as int,
        ),
{
    write_dec_u64(out, v as u64)
}

/// The number that a text of decimal digits reads as.
pub open spec fn number(s: Seq<u8>) -> nat
    decreases s.len(),
{
    if s.len() == 0 {
        0
    } else {
        10 * number(s.drop_last()) + (s.last() - 0x30) as nat
    }
}

/// A text is `n` written out: decimal digits that read as `n`, the first of
/// them no zero unless it is the only one.
pub open spec fn writes(s: Seq<u8>, n: nat) -> bool {
    &&& s.len() >= 1
    &&& forall|i: int| 0 <= i < s.len() ==> 0x30 <= #[trigger] s[i] <= 0x39
    &&& s.len() > 1 ==> s[0] != 0x30
    &&& number(s) == n
}

/// A number's text reads back as the number.
pub proof fn law_decimal_reads_back(n: nat)
    ensures
        writes(dec(n), n),
    decreases n,
{
    if n >= 10 {
        law_decimal_reads_back(n / 10);
        assert(dec(n).drop_last() =~= dec(n / 10));
        if dec(n / 10).len() == 1 {
            assert(number(dec(n / 10)) == dec(n / 10)[0] - 0x30) by {
                reveal_with_fuel(number, 2);
            }
        }
    } else {
        assert(dec(n).drop_last() =~= Seq::empty());
        reveal_with_fuel(number, 2);
    }
}

/// Two texts that write the same number are the same text.
pub proof fn law_one_text_per_number(a: Seq<u8>, b: Seq<u8>, n: nat)
    requires
        writes(a, n),
        writes(b, n),
    ensures
        a == b,
    decreases a.len(),
{
    lemma_writes_size(a, n);
    lemma_writes_size(b, n);
    if n < 10 {
        reveal_with_fuel(number, 2);
        assert(a =~= b);
    } else {
        lemma_writes_rest(a, n);
        lemma_writes_rest(b, n);
        law_one_text_per_number(a.drop_last(), b.drop_last(), n / 10);
        assert(a =~= a.drop_last().push(a.last()));
        assert(b =~= b.drop_last().push(b.last()));
    }
}

proof fn lemma_writes_size(s: Seq<u8>, n: nat)
    requires
        writes(s, n),
    ensures
        n < 10 <==> s.len() == 1,
        s.len() > 1 ==> number(s.drop_last()) >= 1,
    decreases s.len(),
{
    reveal_with_fuel(number, 2);
    if s.len() > 1 {
        lemma_leading(s.drop_last());
    }
}

/// A text that does not begin with a zero reads as a positive number.
proof fn lemma_leading(s: Seq<u8>)
    requires
        s.len() >= 1,
        forall|i: int| 0 <= i < s.len() ==> 0x30 <= #[trigger] s[i] <= 0x39,
        s[0] != 0x30,
    ensures
        number(s) >= 1,
    decreases s.len(),
{
    reveal_with_fuel(number, 2);
    if s.len() > 1 {
        lemma_leading(s.drop_last());
    }
}

proof fn lemma_writes_rest(s: Seq<u8>, n: nat)
    requires
        writes(s, n),
        s.len() > 1,
    ensures
        writes(s.drop_last(), n / 10),
        s.last() == 0x30 + n % 10,
{
    let rest = s.drop_last();
    assert(forall|i: int| 0 <= i < rest.len() ==> rest[i] == s[i]);
}

/// A buffer too short for a number holds its low digits: as many as there is
/// room for, reading as the number's remainder.
pub proof fn law_short_buffer_keeps_the_low_digits(n: nat, cap: nat)
    requires
        cap >= 1,
    ensures
        n < ten_to(cap) ==> writes(dec_in(n, cap), n),
        n >= ten_to(cap) ==> dec_in(n, cap).len() == cap,
        number(dec_in(n, cap)) == n % ten_to(cap),
{
    lemma_dec(n, cap);
    law_decimal_reads_back(n);
    lemma_ten_to_positive(cap);
    if n < ten_to(cap) {
        vstd::arithmetic::div_mod::lemma_small_mod(n, ten_to(cap));
    } else {
        lemma_low_digits(dec(n), cap);
    }
}

proof fn lemma_low_digits(s: Seq<u8>, k: nat)
    requires
        k <= s.len(),
        forall|i: int| 0 <= i < s.len() ==> 0x30 <= #[trigger] s[i] <= 0x39,
    ensures
        number(s.skip(s.len() - k)) == number(s) % ten_to(k),
    decreases k,
{
    let low = s.skip(s.len() - k);
    lemma_ten_to_positive(k);
    if k == 0 {
        assert(number(s) % 1 == 0);
    } else {
        let rest = s.drop_last();
        let m = (k - 1) as nat;
        lemma_ten_to_positive(m);
        lemma_low_digits(rest, m);
        assert(low.drop_last() =~= rest.skip(rest.len() - m));
        assert(low.last() == s.last());
        let d = (s.last() - 0x30) as nat;
        let q = number(rest);
        let t = ten_to(m);
        assert((10 * q + d) % (10 * t) == 10 * (q % t) + d) by (nonlinear_arith)
            requires
                0 <= d < 10,
                t >= 1,
                q >= 0,
        {
            let h = q / t;
            let l = q % t;
            assert(q == t * h + l);
            assert(0 <= l < t);
            assert(10 * q + d == (10 * t) * h + (10 * l + d));
            assert(0 <= 10 * l + d < 10 * t);
            vstd::arithmetic::div_mod::lemma_fundamental_div_mod_converse(
                (10 * q + d) as int,
                (10 * t) as int,
                h as int,
                (10 * l + d) as int,
            );
        }
    }
}

/// The value of an upper-case hexadecimal digit.
pub open spec fn hex_value(c: u8) -> int {
    if c <= 0x39 {
        c - 0x30
    } else {
        c - 0x37
    }
}

/// An upper-case hexadecimal digit.
pub open spec fn is_hex(c: u8) -> bool {
    0x30 <= c <= 0x39 || 0x41 <= c <= 0x46
}

proof fn lemma_hex_char(n: int)
    requires
        0 <= n < 16,
    ensures
        is_hex(hex_char(n)),
        hex_value(hex_char(n)) == n,
{
}

/// Hexadecimal text reads back: two upper-case digits for each byte, in order,
/// the high one first.
pub proof fn law_hexadecimal_reads_back(bs: Seq<u8>)
    ensures
        hex_text(bs).len() == 2 * bs.len(),
        forall|i: int|
            0 <= i < bs.len() ==> is_hex(hex_text(bs)[2 * i]) && is_hex(hex_text(bs)[2 * i + 1])
                && 16 * hex_value(hex_text(bs)[2 * i]) + hex_value(hex_text(bs)[2 * i + 1])
                == #[trigger] bs[i],
{
    assert forall|i: int| 0 <= i < bs.len() implies is_hex(hex_text(bs)[2 * i]) && is_hex(
        hex_text(bs)[2 * i + 1],
    ) && 16 * hex_value(hex_text(bs)[2 * i]) + hex_value(hex_text(bs)[2 * i + 1])
        == #[trigger] bs[i] by {
        let b = bs[i] as int;
        lemma_hex_char(b / 16);
        lemma_hex_char(b % 16);
        assert(hex_text(bs)[2 * i] == hex_char(b / 16));
        assert(hex_text(bs)[2 * i + 1] == hex_char(b % 16));
    }
}

/// A word's text is `0x` and four upper-case digits that read as the word.
#[verifier::spinoff_prover]
pub proof fn law_hexadecimal_word_reads_back(v: u16)
    ensures
        hex_word(v).len() == 6,
        hex_word(v).take(2) == "0x".spec_bytes(),
        is_hex(hex_word(v)[2]) && is_hex(hex_word(v)[3]) && is_hex(hex_word(v)[4]) && is_hex(
            hex_word(v)[5],
        ),
        4096 * hex_value(hex_word(v)[2]) + 256 * hex_value(hex_word(v)[3]) + 16 * hex_value(
            hex_word(v)[4],
        ) + hex_value(hex_word(v)[5]) == v,
{
    let n = v as int;
    lemma_hex_char(n / 4096);
    lemma_hex_char(n / 256 % 16);
    lemma_hex_char(n / 16 % 16);
    lemma_hex_char(n % 16);
    reveal_strlit("0x");
    assert(is_ascii("0x"));
    assert(hex_word(v).take(2) =~= "0x".spec_bytes());
    assert(n / 16 == 16 * (n / 256) + n / 16 % 16);
    assert(n / 256 == 16 * (n / 4096) + n / 256 % 16);
}

/// A name the faces can draw is shown as it is, and any other reads `--`, never
/// as a question mark.
pub proof fn law_unknown_name_is_a_calm_dash(s: Seq<char>)
    ensures
        (forall|i: int| 0 <= i < s.len() ==> ' ' <= #[trigger] s[i] <= '~') ==> calm_name(s) == s,
        !(forall|i: int| 0 <= i < s.len() ==> ' ' <= #[trigger] s[i] <= '~') ==> calm_name(s) == seq![
            '-',
            '-',
        ],
{
    reveal_strlit("--");
    assert("--"@ =~= seq!['-', '-']);
    if forall|i: int| 0 <= i < s.len() ==> ' ' <= #[trigger] s[i] <= '~' {
        assert(is_ascii_chars(s));
        is_ascii_chars_encode_utf8(s);
    } else if all_printable(encode_utf8(s)) {
        let bytes = encode_utf8(s);
        let chars = chars_of(bytes);
        assert(is_ascii_chars(chars));
        is_ascii_chars_encode_utf8(chars);
        assert(encode_utf8(chars) =~= bytes);
        encode_utf8_decode_utf8(chars);
        encode_utf8_decode_utf8(s);
        assert(s == chars);
    }
}

/// The upper-case hexadecimal digit of `n`, for `n` below sixteen.
pub open spec fn hex_char(n: int) -> u8 {
    if n < 10 {
        (0x30 + n) as u8
    } else {
        (0x37 + n) as u8
    }
}

/// Upper-case hexadecimal of a byte string, two digits to the byte.
pub open spec fn hex_text(bs: Seq<u8>) -> Seq<u8> {
    Seq::new(
        2 * bs.len(),
        |i: int|
            if i % 2 == 0 {
                hex_char(bs[i / 2] as int / 16)
            } else {
                hex_char(bs[i / 2] as int % 16)
            },
    )
}

/// `0x` and the four hexadecimal digits of `v`.
pub open spec fn hex_word(v: u16) -> Seq<u8> {
    seq![
        0x30,
        0x78,
        hex_char(v as int / 4096),
        hex_char(v as int / 256 % 16),
        hex_char(v as int / 16 % 16),
        hex_char(v as int % 16),
    ]
}

/// Hexadecimal digits are printable.
pub proof fn lemma_hex_printable(bs: Seq<u8>, v: u16)
    ensures
        all_printable(hex_text(bs)),
        all_printable(hex_word(v)),
{
}

/// The digit of the low four bits of `v`.
pub fn hex_digit(v: u8) -> (r: u8)
    ensures
        r == hex_char(v as int % 16),
{
    assert(v & 0xF == v % 16) by (bit_vector);
    let d: u8 = v & 0xF;
    if d < 10 {
        0x30 + d
    } else {
        0x41 + (d - 10)
    }
}

/// The two-digit wire reference of a slot ("F9", "82", ...).
pub fn hex_byte_tag(v: u8) -> (r: [u8; 2])
    ensures
        r@ == hex_text(seq![v]),
{
    assert(v >> 4 == v / 16) by (bit_vector);
    assert(v & 0xF == v % 16) by (bit_vector);
    let r = [hex_digit(v >> 4), hex_digit(v & 0xF)];
    assert(r@ =~= hex_text(seq![v]));
    r
}

/// `0x` and the hexadecimal of `v` into the first six bytes of `out`.
pub fn hex_u16(v: u16, out: &mut [u8]) -> (r: &str)
    requires
        old(out)@.len() >= 6,
    ensures
        r.spec_bytes() == hex_word(v),
        final(out)@ == hex_word(v) + old(out)@.skip(6),
{
    assert(((v >> 12) as u8) % 16 == v / 4096) by (bit_vector);
    assert(((v >> 8) as u8) % 16 == v / 256 % 16) by (bit_vector);
    assert(((v >> 4) as u8) % 16 == v / 16 % 16) by (bit_vector);
    assert((v as u8) % 16 == v % 16) by (bit_vector);
    out[0] = 0x30;
    out[1] = 0x78;
    out[2] = hex_digit((v >> 12) as u8);
    out[3] = hex_digit((v >> 8) as u8);
    out[4] = hex_digit((v >> 4) as u8);
    out[5] = hex_digit(v as u8);
    assert(out@.subrange(0, 6) =~= hex_word(v));
    assert(out@ =~= hex_word(v) + old(out)@.skip(6));
    str_ascii(&out[0..6])
}

/// Upper-case hexadecimal of at most eight bytes, and a closing NUL.
pub fn hex_bytes(bs: &[u8], out: &mut [u8; 17])
    requires
        bs@.len() <= 8,
    ensures
        final(out)@.take(2 * bs@.len() as int) == hex_text(bs@),
        final(out)@.subrange(2 * bs@.len() as int, 16) == old(out)@.subrange(
            2 * bs@.len() as int,
            16,
        ),
        final(out)@[16] == 0,
{
    let mut i: usize = 0;
    while i < bs.len()
        invariant
            i <= bs@.len() <= 8,
            forall|k: int| 0 <= k < 2 * i ==> out@[k] == hex_text(bs@)[k],
            forall|k: int| 2 * i <= k < 17 ==> out@[k] == old(out)@[k],
        decreases bs@.len() - i,
    {
        let b: u8 = bs[i];
        assert(b >> 4 == b / 16) by (bit_vector);
        assert(b & 0xF == b % 16) by (bit_vector);
        out[i * 2] = hex_digit(b >> 4);
        out[i * 2 + 1] = hex_digit(b & 0xF);
        i += 1;
    }
    out[16] = 0;
    assert(out@.take(2 * bs@.len() as int) =~= hex_text(bs@));
    assert(out@.subrange(2 * bs@.len() as int, 16) =~= old(out)@.subrange(
        2 * bs@.len() as int,
        16,
    ));
}

} // verus!

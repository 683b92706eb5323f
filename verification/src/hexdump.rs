//! Rendering bytes as a hex dump: sixteen bytes per line, each line led by
//! its offset, zero bytes shown as `.` and `0xff` bytes as `##`.
use vstd::prelude::*;
use crate::text::string_from_chars;

verus! {

/// How many bytes one line of the dump shows.
pub const BYTES_PER_LINE: usize = 16;

/// The lower-case hexadecimal digit for `d < 16`.
pub open spec fn hex_digit(d: nat) -> char {
    if d < 10 {
        ((('0' as nat) + d) as u32) as char
    } else {
        ((('a' as nat) + d - 10) as u32) as char
    }
}

/// `n` in lower-case hexadecimal, without leading zeros (`0` for zero).
pub open spec fn hex(n: nat) -> Seq<char>
    decreases n,
{
    if n < 16 {
        seq![hex_digit(n)]
    } else {
        hex(n / 16).push(hex_digit(n % 16))
    }
}

/// `s` preceded by as many `0` as it takes to make it `width` long.
pub open spec fn zero_padded(s: Seq<char>, width: nat) -> Seq<char> {
    if s.len() >= width {
        s
    } else {
        Seq::new((width - s.len()) as nat, |i: int| '0') + s
    }
}

/// `n` as `format!("{:0w$x}", n)` writes it for width `w`.
pub open spec fn hex_width(n: nat, width: nat) -> Seq<char> {
    zero_padded(hex(n), width)
}

/// How one byte is shown.
pub open spec fn cell(b: u8) -> Seq<char> {
    if b == 0 {
        seq!['.', ' ', ' ']
    } else if b == 0xff {
        seq!['#', '#', ' ']
    } else {
        hex_width(b as nat, 2).push(' ')
    }
}

/// How a run of bytes is shown.
pub open spec fn cells(bytes: Seq<u8>) -> Seq<char>
    decreases bytes.len(),
{
    if bytes.len() == 0 {
        seq![]
    } else {
        cells(bytes.drop_last()) + cell(bytes.last())
    }
}

/// The dump line for `chunk`, found at offset `position`.
pub open spec fn spec_dump_line(position: nat, chunk: Seq<u8>) -> Seq<char> {
    seq!['[', '0', 'x'] + hex_width(position, 8) + seq![']', ' '] + cells(chunk)
}

/// The dump of `bytes`: one line for each complete run of sixteen bytes; a
/// shorter run at the end is not shown.
pub open spec fn spec_dump(bytes: Seq<u8>) -> Seq<Seq<char>> {
    Seq::new(
        bytes.len() / 16,
        |k: int| spec_dump_line((16 * k) as nat, bytes.subrange(16 * k, 16 * k + 16)),
    )
}

/// The hexadecimal digit for `d`.
fn hex_digit_char(d: u64) -> (c: char)
    requires
        d < 16,
    ensures
        c == hex_digit(d as nat),
{
    if d < 10 {
        ((('0' as u32) + d as u32) as u8) as char
    } else {
        ((('a' as u32) + d as u32 - 10) as u8) as char
    }
}

/// Appends the hexadecimal digits of `n` to `out`.
fn push_hex(n: u64, out: &mut Vec<char>)
    ensures
        final(out)@ == old(out)@ + hex(n as nat),
    decreases n,
{
    if n >= 16 {
        push_hex(n / 16, out);
    }
    out.push(hex_digit_char(n % 16));
    assert(final(out)@ =~= old(out)@ + hex(n as nat));
}

/// `n` in hexadecimal, padded with zeros to `width` digits.
pub fn hex_padded(n: u64, width: usize) -> (s: Vec<char>)
    ensures
        s@ == hex_width(n as nat, width as nat),
{
    let mut digits: Vec<char> = Vec::new();
    push_hex(n, &mut digits);
    assert(digits@ =~= hex(n as nat));
    let mut s: Vec<char> = Vec::new();
    let len = digits.len();
    if len < width {
        let mut k: usize = 0;
        while k < width - len
            invariant
                k <= width - len,
                s@ == Seq::new(k as nat, |i: int| '0'),
            decreases width - len - k,
        {
            s.push('0');
            k = k + 1;
            assert(s@ =~= Seq::new(k as nat, |i: int| '0'));
        }
    }
    let ghost pad = s@;
    for i in 0..len
        invariant
            len == digits.len(),
            s@ == pad + digits@.take(i as int),
    {
        s.push(digits[i]);
        assert(s@ =~= pad + digits@.take(i + 1));
    }
    assert(digits@.take(len as int) =~= digits@);
    assert(s@ =~= hex_width(n as nat, width as nat));
    s
}

/// Appends the rendering of one byte to `out`.
fn push_cell(b: u8, out: &mut Vec<char>)
    ensures
        final(out)@ == old(out)@ + cell(b),
{
    if b == 0 {
        out.push('.');
        out.push(' ');
        out.push(' ');
    } else if b == 0xff {
        out.push('#');
        out.push('#');
        out.push(' ');
    } else {
        let digits = hex_padded(b as u64, 2);
        let mut i: usize = 0;
        let ghost start = out@;
        while i < digits.len()
            invariant
                i <= digits.len(),
                out@ == start + digits@.take(i as int),
            decreases digits.len() - i,
        {
            out.push(digits[i]);
            i = i + 1;
            assert(out@ =~= start + digits@.take(i as int));
        }
        out.push(' ');
        assert(digits@.take(digits.len() as int) =~= digits@);
    }
    assert(final(out)@ =~= old(out)@ + cell(b));
}

/// The dump line for `chunk`, found at offset `position`.
pub fn dump_line(position: usize, chunk: &[u8]) -> (line: String)
    ensures
        line@ == spec_dump_line(position as nat, chunk@),
{
    let mut out: Vec<char> = Vec::new();
    out.push('[');
    out.push('0');
    out.push('x');
    let digits = hex_padded(position as u64, 8);
    for i in 0..digits.len()
        invariant
            out@ == seq!['[', '0', 'x'] + digits@.take(i as int),
    {
        out.push(digits[i]);
        assert(out@ =~= seq!['[', '0', 'x'] + digits@.take(i + 1));
    }
    assert(digits@.take(digits.len() as int) =~= digits@);
    out.push(']');
    out.push(' ');
    let ghost head = out@;
    assert(head =~= seq!['[', '0', 'x'] + hex_width(position as nat, 8) + seq![']', ' ']);
    for i in 0..chunk.len()
        invariant
            out@ == head + cells(chunk@.take(i as int)),
    {
        push_cell(chunk[i], &mut out);
        assert(chunk@.take(i + 1).drop_last() =~= chunk@.take(i as int));
        assert(out@ =~= head + cells(chunk@.take(i + 1)));
    }
    assert(chunk@.take(chunk.len() as int) =~= chunk@);
    string_from_chars(&out)
}

/// The whole dump of `bytes`, one string per line.
pub fn hex_dump(bytes: &[u8]) -> (lines: Vec<String>)
    ensures
        lines@.map_values(|l: String| l@) == spec_dump(bytes@),
{
    let mut lines: Vec<String> = Vec::new();
    let n = bytes.len() / BYTES_PER_LINE;
    let mut position: usize = 0;
    for k in 0..n
        invariant
            n == bytes.len() / 16,
            position == 16 * k,
            lines@.map_values(|l: String| l@) == spec_dump(bytes@).take(k as int),
    {
        assert(16 * k + 16 <= bytes.len()) by (nonlinear_arith)
            requires
                k < n,
                n == bytes.len() / 16,
        ;
        let chunk = vstd::slice::slice_subrange(bytes, position, position + BYTES_PER_LINE);
        let line = dump_line(position, chunk);
        assert(line@ == spec_dump(bytes@)[k as int]);
        let ghost before = lines@.map_values(|l: String| l@);
        lines.push(line);
        assert(lines@.map_values(|l: String| l@) =~= before.push(spec_dump(bytes@)[k as int]));
        assert(spec_dump(bytes@).take(k + 1) =~= spec_dump(bytes@).take(k as int).push(
            spec_dump(bytes@)[k as int],
        ));
        position = position + BYTES_PER_LINE;
    }
    assert(spec_dump(bytes@).take(n as int) =~= spec_dump(bytes@));
    lines
}


/// Sixteen to the power `k`.
pub open spec fn pow16(k: nat) -> nat
    decreases k,
{
    if k == 0 {
        1
    } else {
        16 * pow16((k - 1) as nat)
    }
}

/// A number below `16^k` has at most `k` hexadecimal digits.
pub proof fn lemma_hex_len(n: nat, k: nat)
    requires
        k >= 1,
        n < pow16(k),
    ensures
        1 <= hex(n).len() <= k,
    decreases k,
{
    if n >= 16 {
        assert(k >= 2) by {
            if k == 1 {
                assert(pow16(1) == 16) by {
                    reveal_with_fuel(pow16, 2);
                }
            }
        }
        assert(n / 16 < pow16((k - 1) as nat)) by (nonlinear_arith)
            requires
                n < pow16(k),
                pow16(k) == 16 * pow16((k - 1) as nat),
        ;
        lemma_hex_len(n / 16, (k - 1) as nat);
    }
}

/// Every byte is shown in three characters.
pub proof fn lemma_cells_len(bytes: Seq<u8>)
    ensures
        cells(bytes).len() == 3 * bytes.len(),
    decreases bytes.len(),
{
    if bytes.len() > 0 {
        lemma_cells_len(bytes.drop_last());
        let b = bytes.last();
        assert(pow16(2) == 256) by {
            reveal_with_fuel(pow16, 3);
        }
        lemma_hex_len(b as nat, 2);
    }
}

/// All lines of a dump have the same width while offsets fit in eight
/// hexadecimal digits: eleven characters of offset and brackets, a space,
/// and three characters for each byte.
pub proof fn lemma_dump_line_width(position: nat, chunk: Seq<u8>)
    requires
        position < 0x1_0000_0000,
    ensures
        spec_dump_line(position, chunk).len() == 13 + 3 * chunk.len(),
{
    assert(pow16(8) == 0x1_0000_0000) by {
        reveal_with_fuel(pow16, 9);
    }
    lemma_hex_len(position, 8);
    lemma_cells_len(chunk);
}


/// A dump has one line for every complete run of sixteen bytes, and line
/// `k` shows the sixteen bytes found at offset `16 * k`.
pub proof fn lemma_dump_shape(bytes: Seq<u8>, k: int)
    requires
        0 <= k < bytes.len() / 16,
    ensures
        spec_dump(bytes).len() == bytes.len() / 16,
        16 * k + 16 <= bytes.len(),
        spec_dump(bytes)[k] == spec_dump_line((16 * k) as nat, bytes.subrange(16 * k, 16 * k + 16)),
{
    assert(16 * k + 16 <= bytes.len()) by (nonlinear_arith)
        requires
            0 <= k < bytes.len() / 16,
    ;
}

} // verus!

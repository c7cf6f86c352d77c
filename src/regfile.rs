//! Register names and the textual snapshot of the architectural state.
use vstd::prelude::*;

verus! {

/// Calling-convention name of register `i`.
pub open spec fn abi_name_of(i: int) -> Seq<char> {
    if i == 0 { seq!['z', 'e', 'r', 'o'] }
    else if i == 1 { seq!['r', 'a'] }
    else if i == 2 { seq!['s', 'p'] }
    else if i == 3 { seq!['g', 'p'] }
    else if i == 4 { seq!['t', 'p'] }
    else if i == 5 { seq!['t', '0'] }
    else if i == 6 { seq!['t', '1'] }
    else if i == 7 { seq!['t', '2'] }
    else if i == 8 { seq!['s', '0'] }
    else if i == 9 { seq!['s', '1'] }
    else if i == 10 { seq!['a', '0'] }
    else if i == 11 { seq!['a', '1'] }
    else if i == 12 { seq!['a', '2'] }
    else if i == 13 { seq!['a', '3'] }
    else if i == 14 { seq!['a', '4'] }
    else if i == 15 { seq!['a', '5'] }
    else if i == 16 { seq!['a', '6'] }
    else if i == 17 { seq!['a', '7'] }
    else if i == 18 { seq!['s', '2'] }
    else if i == 19 { seq!['s', '3'] }
    else if i == 20 { seq!['s', '4'] }
    else if i == 21 { seq!['s', '5'] }
    else if i == 22 { seq!['s', '6'] }
    else if i == 23 { seq!['s', '7'] }
    else if i == 24 { seq!['s', '8'] }
    else if i == 25 { seq!['s', '9'] }
    else if i == 26 { seq!['s', '1', '0'] }
    else if i == 27 { seq!['s', '1', '1'] }
    else if i == 28 { seq!['t', '3'] }
    else if i == 29 { seq!['t', '4'] }
    else if i == 30 { seq!['t', '5'] }
    else { seq!['t', '6'] }
}

/// The calling-convention name of a register index.
pub fn abi_name(reg: usize) -> (r: Vec<char>)
    requires
        reg < 32,
    ensures
        r@ == abi_name_of(reg as int),
{
    match reg {
        0 => vec!['z', 'e', 'r', 'o'],
        1 => vec!['r', 'a'],
        2 => vec!['s', 'p'],
        3 => vec!['g', 'p'],
        4 => vec!['t', 'p'],
        5 => vec!['t', '0'],
        6 => vec!['t', '1'],
        7 => vec!['t', '2'],
        8 => vec!['s', '0'],
        9 => vec!['s', '1'],
        10 => vec!['a', '0'],
        11 => vec!['a', '1'],
        12 => vec!['a', '2'],
        13 => vec!['a', '3'],
        14 => vec!['a', '4'],
        15 => vec!['a', '5'],
        16 => vec!['a', '6'],
        17 => vec!['a', '7'],
        18 => vec!['s', '2'],
        19 => vec!['s', '3'],
        20 => vec!['s', '4'],
        21 => vec!['s', '5'],
        22 => vec!['s', '6'],
        23 => vec!['s', '7'],
        24 => vec!['s', '8'],
        25 => vec!['s', '9'],
        26 => vec!['s', '1', '0'],
        27 => vec!['s', '1', '1'],
        28 => vec!['t', '3'],
        29 => vec!['t', '4'],
        30 => vec!['t', '5'],
        _ => vec!['t', '6'],
    }
}

/// Lower-case hexadecimal digit for a value below sixteen.
pub open spec fn hex_digit(d: u32) -> char {
    if d < 10 {
        ((d + 48) as u8) as char
    } else {
        ((d + 87) as u8) as char
    }
}

/// Hexadecimal digit `k` (most significant first) of a word.
pub open spec fn nibble(v: u32, k: int) -> u32 {
    (v >> ((28 - 4 * k) as u32)) & 0xf
}

/// A word as `0x` followed by eight zero-padded lower-case hexadecimal digits.
pub open spec fn hex_word(v: u32) -> Seq<char> {
    seq!['0', 'x'] + Seq::new(8, |k: int| hex_digit(nibble(v, k)))
}

/// A register name padded on the right with spaces to four characters.
pub open spec fn padded_name(i: int) -> Seq<char> {
    let n = abi_name_of(i);
    n + Seq::new((4 - n.len()) as nat, |k: int| ' ')
}

/// The entry of register `i`: name, value, and the separator or line break
/// that follows it (four registers to a line).
pub open spec fn reg_entry(regs: Seq<u32>, i: int) -> Seq<char> {
    padded_name(i) + seq![':', ' '] + hex_word(regs[i]) + seq![' '] + if (i + 1) % 4 == 0 {
        seq!['\n']
    } else {
        seq!['-', ' ']
    }
}

/// The entries of the first `n` registers.
pub open spec fn reg_entries(regs: Seq<u32>, n: nat) -> Seq<char>
    decreases n,
{
    if n == 0 {
        Seq::empty()
    } else {
        reg_entries(regs, (n - 1) as nat) + reg_entry(regs, n - 1)
    }
}

/// The whole snapshot: the program counter on a line, then all 32 registers.
pub open spec fn dump_text(pc: u32, regs: Seq<u32>) -> Seq<char> {
    seq!['P', 'C', ':', ' '] + hex_word(pc) + seq!['\n'] + reg_entries(regs, 32)
}

fn hex_char(d: u32) -> (c: char)
    requires
        d < 16,
    ensures
        c == hex_digit(d),
{
    if d < 10 {
        ((d + 48) as u8) as char
    } else {
        ((d + 87) as u8) as char
    }
}

/// Appends `v` as `0x` and eight hexadecimal digits.
fn push_hex_word(out: &mut Vec<char>, v: u32)
    ensures
        final(out)@ == old(out)@ + hex_word(v),
{
    out.push('0');
    out.push('x');
    let ghost start = out@;
    let mut k: u32 = 0;
    while k < 8
        invariant
            k <= 8,
            start == old(out)@ + seq!['0', 'x'],
            out@ == start + Seq::new(k as nat, |j: int| hex_digit(nibble(v, j))),
        decreases 8 - k,
    {
        let sh: u32 = 28 - 4 * k;
        let d = (v >> sh) & 0xf;
        assert(d < 16) by (bit_vector)
            requires
                d == (v >> sh) & 0xf,
        ;
        let c = hex_char(d);
        out.push(c);
        assert(out@ =~= start + Seq::new((k + 1) as nat, |j: int| hex_digit(nibble(v, j))));
        k = k + 1;
    }
    assert(out@ =~= old(out)@ + hex_word(v));
}

/// Appends the entry of register `i` with value `v`.
fn push_entry(out: &mut Vec<char>, i: usize, v: u32, regs: Ghost<Seq<u32>>)
    requires
        i < 32,
        i < regs@.len(),
        regs@[i as int] == v,
    ensures
        final(out)@ == old(out)@ + reg_entry(regs@, i as int),
{
    let name = abi_name(i);
    let mut j: usize = 0;
    while j < name.len()
        invariant
            j <= name@.len(),
            name@ == abi_name_of(i as int),
            out@ == old(out)@ + name@.subrange(0, j as int),
        decreases name@.len() - j,
    {
        out.push(name[j]);
        assert(out@ =~= old(out)@ + name@.subrange(0, j + 1));
        j = j + 1;
    }
    let ghost after_name = out@;
    while j < 4
        invariant
            name@.len() <= j <= 4,
            name@ == abi_name_of(i as int),
            out@ == after_name + Seq::new((j - name@.len()) as nat, |k: int| ' '),
        decreases 4 - j,
    {
        out.push(' ');
        assert(out@ =~= after_name + Seq::new((j + 1 - name@.len()) as nat, |k: int| ' '));
        j = j + 1;
    }
    assert(name@ =~= name@.subrange(0, name@.len() as int));
    assert(out@ =~= old(out)@ + padded_name(i as int));
    out.push(':');
    out.push(' ');
    push_hex_word(out, v);
    out.push(' ');
    if (i + 1) % 4 == 0 {
        out.push('\n');
    } else {
        out.push('-');
        out.push(' ');
    }
    assert(out@ =~= old(out)@ + reg_entry(regs@, i as int));
}

/// Renders the program counter and all 32 registers, four to a line, each
/// named by its calling-convention alias.
pub fn dump_state(pc: u32, regs: &[u32; 32]) -> (r: Vec<char>)
    ensures
        r@ == dump_text(pc, regs@),
{
    let mut out: Vec<char> = vec!['P', 'C', ':', ' '];
    push_hex_word(&mut out, pc);
    out.push('\n');
    let ghost head = out@;
    let mut i: usize = 0;
    while i < 32
        invariant
            i <= 32,
            out@ == head + reg_entries(regs@, i as nat),
        decreases 32 - i,
    {
        push_entry(&mut out, i, regs[i], Ghost(regs@));
        assert(out@ =~= head + reg_entries(regs@, (i + 1) as nat));
        i = i + 1;
    }
    assert(out@ =~= dump_text(pc, regs@));
    out
}

/// The snapshot depends on the program counter and the registers alone, so
/// taking it again with neither changed gives the same text.
pub proof fn lemma_dump_repeatable(pc: u32, regs: Seq<u32>, pc2: u32, regs2: Seq<u32>)
    requires
        pc == pc2,
        regs == regs2,
    ensures
        dump_text(pc, regs) == dump_text(pc2, regs2),
{
}

} // verus!

//! Big-endian integers on the wire, as HTTP/2 lays them out.
use vstd::prelude::*;

verus! {

/// The unsigned value of a big-endian byte sequence.
pub open spec fn be_value(s: Seq<u8>) -> nat
    decreases s.len(),
{
    if s.len() == 0 {
        0
    } else {
        be_value(s.drop_last()) * 256 + s.last() as nat
    }
}

/// The two big-endian bytes of `x`.
pub open spec fn u16_be(x: u16) -> Seq<u8> {
    seq![(x / 256) as u8, (x % 256) as u8]
}

/// The four big-endian bytes of `x`.
pub open spec fn u32_be(x: u32) -> Seq<u8> {
    seq![
        (x / 0x100_0000) as u8,
        ((x / 0x1_0000) % 256) as u8,
        ((x / 256) % 256) as u8,
        (x % 256) as u8,
    ]
}

/// The three low big-endian bytes of `x` (the 24-bit length field of a frame).
pub open spec fn u24_be(x: u32) -> Seq<u8> {
    u32_be(x).subrange(1, 4)
}

/// The eight big-endian bytes of `x`: its high word, then its low word.
pub open spec fn u64_be(x: u64) -> Seq<u8> {
    u32_be((x / 0x1_0000_0000) as u32) + u32_be((x % 0x1_0000_0000) as u32)
}

pub proof fn lemma_be_value_2(s: Seq<u8>)
    requires
        s.len() == 2,
    ensures
        be_value(s) == s[0] * 256 + s[1],
{
    reveal_with_fuel(be_value, 3);
    assert(s.drop_last().drop_last() =~= Seq::<u8>::empty());
}

pub proof fn lemma_be_value_3(s: Seq<u8>)
    requires
        s.len() == 3,
    ensures
        be_value(s) == s[0] * 0x1_0000 + s[1] * 256 + s[2],
{
    reveal_with_fuel(be_value, 4);
    assert(s.drop_last().drop_last().drop_last() =~= Seq::<u8>::empty());
}

pub proof fn lemma_be_value_4(s: Seq<u8>)
    requires
        s.len() == 4,
    ensures
        be_value(s) == s[0] * 0x100_0000 + s[1] * 0x1_0000 + s[2] * 256 + s[3],
{
    reveal_with_fuel(be_value, 5);
    assert(s.drop_last().drop_last().drop_last().drop_last() =~= Seq::<u8>::empty());
}

pub proof fn lemma_be_value_8(s: Seq<u8>)
    requires
        s.len() == 8,
    ensures
        be_value(s) == s[0] * 0x100_0000_0000_0000 + s[1] * 0x1_0000_0000_0000 + s[2]
            * 0x100_0000_0000 + s[3] * 0x1_0000_0000 + s[4] * 0x100_0000 + s[5] * 0x1_0000 + s[6]
            * 256 + s[7],
{
    reveal_with_fuel(be_value, 9);
    assert(s.drop_last().drop_last().drop_last().drop_last().drop_last().drop_last().drop_last().drop_last()
        =~= Seq::<u8>::empty());
}

/// Reading back the bytes of `u16_be(x)` gives `x`.
pub proof fn lemma_u16_be_roundtrip(x: u16)
    ensures
        u16_be(x).len() == 2,
        be_value(u16_be(x)) == x,
{
    lemma_be_value_2(u16_be(x));
}

/// Reading back the bytes of `u32_be(x)` gives `x`.
pub proof fn lemma_u32_be_roundtrip(x: u32)
    ensures
        u32_be(x).len() == 4,
        be_value(u32_be(x)) == x,
{
    lemma_be_value_4(u32_be(x));
}

/// Writing back the value of two bytes gives the same two bytes.
pub proof fn lemma_u16_be_of_bytes(s: Seq<u8>)
    requires
        s.len() == 2,
    ensures
        u16_be(be_value(s) as u16) == s,
{
    lemma_be_value_2(s);
    let v: int = s[0] * 256 + s[1];
    assert(v / 256 == s[0] && v % 256 == s[1]) by (nonlinear_arith)
        requires
            v == s[0] * 256 + s[1],
            0 <= s[0] < 256,
            0 <= s[1] < 256,
    ;
    assert(u16_be(be_value(s) as u16) =~= s);
}

/// Writing back the value of four bytes gives the same four bytes.
pub proof fn lemma_u32_be_of_bytes(s: Seq<u8>)
    requires
        s.len() == 4,
    ensures
        u32_be(be_value(s) as u32) == s,
{
    lemma_be_value_4(s);
    let v: int = s[0] * 0x100_0000 + s[1] * 0x1_0000 + s[2] * 256 + s[3];
    assert(v / 0x100_0000 == s[0] && (v / 0x1_0000) % 256 == s[1] && (v / 256) % 256 == s[2] && v % 256 == s[3])
        by (nonlinear_arith)
        requires
            v == s[0] * 0x100_0000 + s[1] * 0x1_0000 + s[2] * 256 + s[3],
            0 <= s[0] < 256,
            0 <= s[1] < 256,
            0 <= s[2] < 256,
            0 <= s[3] < 256,
    ;
    assert(u32_be(be_value(s) as u32) =~= s);
}

/// Reading back the bytes of `u64_be(x)` gives `x`.
pub proof fn lemma_u64_be_roundtrip(x: u64)
    ensures
        u64_be(x).len() == 8,
        be_value(u64_be(x)) == x,
{
    let hi = (x / 0x1_0000_0000) as u32;
    let lo = (x % 0x1_0000_0000) as u32;
    lemma_u32_be_roundtrip(hi);
    lemma_u32_be_roundtrip(lo);
    lemma_be_value_4(u32_be(hi));
    lemma_be_value_4(u32_be(lo));
    lemma_be_value_8(u64_be(x));
}

/// Reading back the 24-bit length field gives `x` when `x` fits in 24 bits.
pub proof fn lemma_u24_be_roundtrip(x: u32)
    requires
        x < 0x100_0000,
    ensures
        u24_be(x).len() == 3,
        be_value(u24_be(x)) == x,
{
    lemma_be_value_3(u24_be(x));
}

/// Reads the big-endian `u16` at `at`.
pub fn read_u16_be(b: &[u8], at: usize) -> (r: u16)
    requires
        at + 2 <= b@.len(),
    ensures
        r == be_value(b@.subrange(at as int, at + 2)),
{
    proof {
        lemma_be_value_2(b@.subrange(at as int, at + 2));
    }
    (b[at] as u16) * 256 + (b[at + 1] as u16)
}

/// Reads the big-endian 24-bit value at `at`.
pub fn read_u24_be(b: &[u8], at: usize) -> (r: u32)
    requires
        at + 3 <= b@.len(),
    ensures
        r == be_value(b@.subrange(at as int, at + 3)),
        r < 0x100_0000,
{
    proof {
        lemma_be_value_3(b@.subrange(at as int, at + 3));
    }
    (b[at] as u32) * 0x1_0000 + (b[at + 1] as u32) * 256 + (b[at + 2] as u32)
}

/// Reads the big-endian `u32` at `at`.
pub fn read_u32_be(b: &[u8], at: usize) -> (r: u32)
    requires
        at + 4 <= b@.len(),
    ensures
        r == be_value(b@.subrange(at as int, at + 4)),
{
    proof {
        lemma_be_value_4(b@.subrange(at as int, at + 4));
    }
    (b[at] as u32) * 0x100_0000 + (b[at + 1] as u32) * 0x1_0000 + (b[at + 2] as u32) * 256 + (b[at
        + 3] as u32)
}

/// Reads the big-endian `u64` at `at`.
pub fn read_u64_be(b: &[u8], at: usize) -> (r: u64)
    requires
        at + 8 <= b@.len(),
    ensures
        r == be_value(b@.subrange(at as int, at + 8)),
{
    proof {
        lemma_be_value_8(b@.subrange(at as int, at + 8));
    }
    (b[at] as u64) * 0x100_0000_0000_0000 + (b[at + 1] as u64) * 0x1_0000_0000_0000 + (b[at + 2] as u64)
        * 0x100_0000_0000 + (b[at + 3] as u64) * 0x1_0000_0000 + (b[at + 4] as u64) * 0x100_0000 + (b[at
        + 5] as u64) * 0x1_0000 + (b[at + 6] as u64) * 256 + (b[at + 7] as u64)
}

/// Appends the two big-endian bytes of `x`.
pub fn push_u16_be(out: &mut Vec<u8>, x: u16)
    ensures
        final(out)@ == old(out)@ + u16_be(x),
{
    out.push((x / 256) as u8);
    out.push((x % 256) as u8);
    assert(final(out)@ =~= old(out)@ + u16_be(x));
}

/// Appends the four big-endian bytes of `x`.
pub fn push_u32_be(out: &mut Vec<u8>, x: u32)
    ensures
        final(out)@ == old(out)@ + u32_be(x),
{
    out.push((x / 0x100_0000) as u8);
    out.push(((x / 0x1_0000) % 256) as u8);
    out.push(((x / 256) % 256) as u8);
    out.push((x % 256) as u8);
    assert(final(out)@ =~= old(out)@ + u32_be(x));
}

/// Appends the three low big-endian bytes of `x`.
pub fn push_u24_be(out: &mut Vec<u8>, x: u32)
    ensures
        final(out)@ == old(out)@ + u24_be(x),
{
    out.push(((x / 0x1_0000) % 256) as u8);
    out.push(((x / 256) % 256) as u8);
    out.push((x % 256) as u8);
    assert(final(out)@ =~= old(out)@ + u24_be(x));
}

/// Appends the eight big-endian bytes of `x`.
pub fn push_u64_be(out: &mut Vec<u8>, x: u64)
    ensures
        final(out)@ == old(out)@ + u64_be(x),
{
    push_u32_be(out, (x / 0x1_0000_0000) as u32);
    push_u32_be(out, (x % 0x1_0000_0000) as u32);
    assert(final(out)@ =~= old(out)@ + u64_be(x));
}

/// Appends all of `bytes`.
pub fn push_all(out: &mut Vec<u8>, bytes: &[u8])
    ensures
        final(out)@ == old(out)@ + bytes@,
{
    let mut i: usize = 0;
    while i < bytes.len()
        invariant
            i <= bytes@.len(),
            out@ == old(out)@ + bytes@.subrange(0, i as int),
        decreases bytes@.len() - i,
    {
        out.push(bytes[i]);
        i = i + 1;
        assert(out@ =~= old(out)@ + bytes@.subrange(0, i as int));
    }
    assert(bytes@.subrange(0, bytes@.len() as int) =~= bytes@);
}

/// A copy of `bytes[from..to]`.
pub fn copy_range(bytes: &[u8], from: usize, to: usize) -> (r: Vec<u8>)
    requires
        from <= to <= bytes@.len(),
    ensures
        r@ == bytes@.subrange(from as int, to as int),
{
    let mut out: Vec<u8> = Vec::new();
    let mut i: usize = from;
    while i < to
        invariant
            from <= i <= to <= bytes@.len(),
            out@ == bytes@.subrange(from as int, i as int),
        decreases to - i,
    {
        out.push(bytes[i]);
        i = i + 1;
        assert(out@ =~= bytes@.subrange(from as int, i as int));
    }
    out
}

/// The bytes of an ASCII text, one per character.
pub open spec fn ascii(s: Seq<char>) -> Seq<u8> {
    s.map_values(|c: char| c as u8)
}

/// The bytes of an ASCII string.
pub fn ascii_vec(s: &str) -> (r: Vec<u8>)
    requires
        vstd::string::is_ascii(s),
    ensures
        r@ == ascii(s@),
{
    let mut v: Vec<u8> = Vec::new();
    push_all(&mut v, s.as_bytes());
    proof {
        vstd::string::is_ascii_spec_bytes(s);
    }
    assert(v@ =~= ascii(s@));
    v
}

/// Whether two byte strings are equal.
pub fn bytes_eq(a: &[u8], b: &[u8]) -> (r: bool)
    ensures
        r == (a@ == b@),
{
    if a.len() != b.len() {
        return false;
    }
    let mut i: usize = 0;
    while i < a.len()
        invariant
            i <= a@.len() == b@.len(),
            forall|j: int| 0 <= j < i ==> a@[j] == b@[j],
        decreases a@.len() - i,
    {
        if a[i] != b[i] {
            return false;
        }
        i = i + 1;
    }
    assert(a@ =~= b@);
    true
}

/// A list of (name, value) byte strings, by value.
pub open spec fn pairs_view(v: Seq<(Vec<u8>, Vec<u8>)>) -> Seq<(Seq<u8>, Seq<u8>)> {
    v.map_values(|p: (Vec<u8>, Vec<u8>)| (p.0@, p.1@))
}

/// A copy of a list of (name, value) byte strings.
pub fn copy_pairs(v: &[(Vec<u8>, Vec<u8>)]) -> (r: Vec<(Vec<u8>, Vec<u8>)>)
    ensures
        pairs_view(r@) == pairs_view(v@),
{
    let mut out: Vec<(Vec<u8>, Vec<u8>)> = Vec::new();
    let mut i: usize = 0;
    while i < v.len()
        invariant
            i <= v@.len(),
            out@.len() == i,
            forall|j: int| 0 <= j < i ==> (#[trigger] out@[j]).0@ == v@[j].0@ && out@[j].1@ == v@[j].1@,
        decreases v@.len() - i,
    {
        let name = copy_range(v[i].0.as_slice(), 0, v[i].0.len());
        let value = copy_range(v[i].1.as_slice(), 0, v[i].1.len());
        assert(v[i as int].0@.subrange(0, v[i as int].0@.len() as int) =~= v[i as int].0@);
        assert(v[i as int].1@.subrange(0, v[i as int].1@.len() as int) =~= v[i as int].1@);
        out.push((name, value));
        i = i + 1;
    }
    assert(pairs_view(out@) =~= pairs_view(v@));
    out
}

/// The value of the first pair named `name`, if any.
pub open spec fn first_named(list: Seq<(Seq<u8>, Seq<u8>)>, name: Seq<u8>) -> Option<Seq<u8>>
    decreases list.len(),
{
    if list.len() == 0 {
        None
    } else if list[0].0 == name {
        Some(list[0].1)
    } else {
        first_named(list.drop_first(), name)
    }
}

/// The index of the first pair named `name`, if any.
pub fn find_named(v: &Vec<(Vec<u8>, Vec<u8>)>, name: &[u8]) -> (r: Option<usize>)
    ensures
        match r {
            Some(i) => i < v@.len() && first_named(pairs_view(v@), name@) == Some(v@[i as int].1@),
            None => first_named(pairs_view(v@), name@) is None,
        },
{
    let mut i: usize = 0;
    assert(pairs_view(v@).subrange(0, pairs_view(v@).len() as int) =~= pairs_view(v@));
    while i < v.len()
        invariant
            i <= v@.len(),
            first_named(pairs_view(v@), name@) == first_named(pairs_view(v@).subrange(i as int, v@.len() as int), name@),
        decreases v@.len() - i,
    {
        let ghost rest = pairs_view(v@).subrange(i as int, v@.len() as int);
        assert(rest.drop_first() =~= pairs_view(v@).subrange(i + 1, v@.len() as int));
        if bytes_eq(v[i].0.as_slice(), name) {
            return Some(i);
        }
        i = i + 1;
    }
    None
}

/// The decimal digits of `n`, most significant first (`0` for zero).
pub open spec fn decimal(n: nat) -> Seq<u8>
    decreases n,
{
    if n < 10 {
        seq![(48 + n) as u8]
    } else {
        decimal(n / 10) + seq![(48 + n % 10) as u8]
    }
}

/// The decimal digits of `n`, as `to_string` writes them.
pub fn decimal_bytes(n: u64) -> (r: Vec<u8>)
    ensures
        r@ == decimal(n as nat),
    decreases n,
{
    if n < 10 {
        let mut v: Vec<u8> = Vec::new();
        v.push((48 + n) as u8);
        assert(v@ =~= decimal(n as nat));
        v
    } else {
        let mut v = decimal_bytes(n / 10);
        v.push((48 + n % 10) as u8);
        assert(v@ =~= decimal(n as nat));
        v
    }
}

} // verus!

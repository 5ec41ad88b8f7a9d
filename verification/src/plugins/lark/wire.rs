//! Protocol-buffer wire primitives: varints, keys, delimited data, and the
//! skipping of unknown fields.
//!
//! Decoding is stated on the bytes still to be read: each spec function takes
//! them and gives a value together with the bytes that are left.
use vstd::prelude::*;

verus! {

/// Why bytes are no frame.
#[derive(Clone, Copy, Debug, PartialEq, Eq, Structural)]
pub enum FrameError {
    /// A varint runs past ten bytes, past the end, or past 64 bits.
    InvalidVarint,
    /// A field key does not fit in 32 bits.
    InvalidKey,
    /// A field key names no wire type.
    InvalidWireType,
    /// A field key has the tag zero.
    InvalidTag,
    /// A known field arrives with another wire type than its own.
    UnexpectedWireType,
    /// A length points past the end of the data.
    BufferUnderflow,
    /// A text field holds bytes that are not UTF-8.
    InvalidUtf8,
    /// A group ends that was not open.
    UnexpectedEndGroup,
    /// Unknown groups are nested too deep.
    RecursionLimit,
    /// The fields of an embedded message run past its length.
    LengthExceeded,
}

/// Wire type of integers.
pub const WIRE_VARINT: u32 = 0;

/// Wire type of eight raw bytes.
pub const WIRE_FIXED64: u32 = 1;

/// Wire type of length-prefixed data.
pub const WIRE_DELIMITED: u32 = 2;

/// Wire type that opens a group.
pub const WIRE_START_GROUP: u32 = 3;

/// Wire type that closes a group.
pub const WIRE_END_GROUP: u32 = 4;

/// Wire type of four raw bytes.
pub const WIRE_FIXED32: u32 = 5;

/// How deep embedded messages and unknown groups may nest.
pub const MAX_DEPTH: u32 = 100;

// ---------------------------------------------------------------------------
// Varints
// ---------------------------------------------------------------------------

/// The base-128 digits of `v`, least significant first, with the high bit set
/// on all but the last.
pub open spec fn varint_bytes(v: nat) -> Seq<u8>
    decreases v,
{
    if v < 128 {
        seq![v as u8]
    } else {
        seq![(v % 128 + 128) as u8] + varint_bytes(v / 128)
    }
}

/// One more than the largest value that the bytes from the `i`-th on can add:
/// ten bytes hold 64 bits.
pub open spec fn varint_bound(i: nat) -> nat
    decreases 10 - i,
{
    if i >= 10 {
        0
    } else if i == 9 {
        2
    } else {
        128 * varint_bound(i + 1)
    }
}

/// The varint at the front of `s`, of which `i` bytes have been read before.
pub open spec fn varint_from(s: Seq<u8>, i: nat) -> Result<(nat, Seq<u8>), FrameError>
    decreases 10 - i,
{
    if i >= 10 || s.len() == 0 {
        Err(FrameError::InvalidVarint)
    } else if s[0] < 128 {
        if i == 9 && s[0] >= 2 {
            Err(FrameError::InvalidVarint)
        } else {
            Ok((s[0] as nat, s.skip(1)))
        }
    } else {
        match varint_from(s.skip(1), i + 1) {
            Ok((v, rest)) => Ok(((s[0] - 128 + 128 * v) as nat, rest)),
            Err(e) => Err(e),
        }
    }
}

/// The varint at the front of `s`.
pub open spec fn read_varint(s: Seq<u8>) -> Result<(nat, Seq<u8>), FrameError> {
    varint_from(s, 0)
}

/// What a varint leaves is a proper suffix, and its value fits its bound.
pub proof fn lemma_varint_suffix(s: Seq<u8>, i: nat)
    ensures
        varint_from(s, i) matches Ok((v, rest)) ==> {
            &&& rest.len() < s.len()
            &&& rest == s.skip(s.len() - rest.len())
            &&& v < varint_bound(i)
        },
    decreases 10 - i,
{
    if i < 10 && s.len() > 0 {
        if s[0] < 128 {
            assert(i < 9 ==> varint_bound(i) >= 128) by {
                reveal_with_fuel(varint_bound, 10);
            }
        } else {
            lemma_varint_suffix(s.skip(1), i + 1);
            if let Ok((v, rest)) = varint_from(s.skip(1), i + 1) {
                assert(s.skip(1).skip(s.skip(1).len() - rest.len()) =~= s.skip(s.len() - rest.len()));
                reveal_with_fuel(varint_bound, 2);
                if i == 9 {
                    assert(varint_bound(10) == 0);
                    assert(false);
                }
            }
        }
    }
}

/// Ten varint bytes hold exactly the 64-bit integers.
pub proof fn lemma_varint_bound()
    ensures
        varint_bound(0) == 0x1_0000_0000_0000_0000,
{
    reveal_with_fuel(varint_bound, 11);
}

/// Reading a written varint gives the value back and leaves what follows it.
pub proof fn lemma_varint_roundtrip(v: nat, i: nat, post: Seq<u8>)
    requires
        v < varint_bound(i),
    ensures
        varint_from(varint_bytes(v) + post, i) == Ok::<(nat, Seq<u8>), FrameError>((v, post)),
    decreases v,
{
    reveal_with_fuel(varint_bound, 2);
    let s = varint_bytes(v) + post;
    if v < 128 {
        assert(s.skip(1) =~= post);
    } else {
        assert(i < 9);
        assert(v / 128 < varint_bound(i + 1));
        lemma_varint_roundtrip(v / 128, i + 1, post);
        assert(s.skip(1) =~= varint_bytes(v / 128) + post);
        assert(s[0] == (v % 128 + 128) as u8);
    }
}

/// Appends `v` as a varint.
pub fn put_varint(v: u64, out: &mut Vec<u8>)
    ensures
        final(out)@ == old(out)@ + varint_bytes(v as nat),
    decreases v,
{
    if v < 128 {
        out.push(v as u8);
        assert(out@ =~= old(out)@ + varint_bytes(v as nat));
    } else {
        out.push((v % 128 + 128) as u8);
        let ghost mid = out@;
        put_varint(v / 128, out);
        assert(out@ =~= old(out)@ + varint_bytes(v as nat)) by {
            assert(mid == old(out)@.push((v % 128 + 128) as u8));
        }
    }
}

fn get_varint_from(data: &[u8], pos: usize, i: u32) -> (r: Result<(u64, usize), FrameError>)
    requires
        pos <= data.len(),
        i <= 10,
    ensures
        match r {
            Ok((v, p)) => {
                &&& pos < p <= data.len()
                &&& v < varint_bound(i as nat)
                &&& varint_from(data@.skip(pos as int), i as nat) == Ok::<(nat, Seq<u8>), FrameError>((v as nat, data@.skip(p as int)))
            },
            Err(e) => varint_from(data@.skip(pos as int), i as nat) == Err::<(nat, Seq<u8>), FrameError>(e),
        },
    decreases 10 - i,
{
    let ghost s = data@.skip(pos as int);
    if i >= 10 || pos == data.len() {
        return Err(FrameError::InvalidVarint);
    }
    proof {
        lemma_varint_suffix(s, i as nat);
    }
    assert(s.skip(1) =~= data@.skip(pos + 1));
    let b: u8 = data[pos];
    assert(s[0] == b);
    if b < 128 {
        if i == 9 && b >= 2 {
            Err(FrameError::InvalidVarint)
        } else {
            Ok((b as u64, pos + 1))
        }
    } else {
        match get_varint_from(data, pos + 1, i + 1) {
            Ok((v, p)) => {
                proof {
                    reveal_with_fuel(varint_bound, 2);
                    assert(varint_bound(i as nat) <= 0x1_0000_0000_0000_0000) by {
                        reveal_with_fuel(varint_bound, 11);
                    }
                    assert(i < 9) by {
                        if i == 9 {
                            assert(varint_bound(10) == 0);
                        }
                    }
                    assert(varint_bound(i as nat) == 128 * varint_bound((i + 1) as nat));
                }
                Ok(((b - 128) as u64 + 128 * v, p))
            },
            Err(e) => Err(e),
        }
    }
}

/// Reads the varint at `pos`.
pub fn get_varint(data: &[u8], pos: usize) -> (r: Result<(u64, usize), FrameError>)
    requires
        pos <= data.len(),
    ensures
        match r {
            Ok((v, p)) => {
                &&& pos < p <= data.len()
                &&& read_varint(data@.skip(pos as int)) == Ok::<(nat, Seq<u8>), FrameError>((v as nat, data@.skip(p as int)))
            },
            Err(e) => read_varint(data@.skip(pos as int)) == Err::<(nat, Seq<u8>), FrameError>(e),
        },
{
    get_varint_from(data, pos, 0)
}

// ---------------------------------------------------------------------------
// Keys
// ---------------------------------------------------------------------------

/// The key of a field: its tag and its wire type in one varint.
pub open spec fn key_bytes(tag: nat, wire: nat) -> Seq<u8> {
    varint_bytes(tag * 8 + wire)
}

/// The tag and the wire type at the front of `s`.
pub open spec fn read_key(s: Seq<u8>) -> Result<(nat, nat, Seq<u8>), FrameError> {
    match read_varint(s) {
        Err(e) => Err(e),
        Ok((k, rest)) => if k > u32::MAX {
            Err(FrameError::InvalidKey)
        } else if k % 8 > 5 {
            Err(FrameError::InvalidWireType)
        } else if k / 8 == 0 {
            Err(FrameError::InvalidTag)
        } else {
            Ok((k / 8, k % 8, rest))
        },
    }
}

/// Reading a written key gives tag and wire type back.
pub proof fn lemma_key_roundtrip(tag: nat, wire: nat, post: Seq<u8>)
    requires
        1 <= tag <= 0x1fff_ffff,
        wire <= 5,
    ensures
        read_key(key_bytes(tag, wire) + post) == Ok::<(nat, nat, Seq<u8>), FrameError>((tag, wire, post)),
{
    lemma_varint_bound();
    lemma_varint_roundtrip(tag * 8 + wire, 0, post);
}

/// Appends the key of a field.
pub fn put_key(tag: u32, wire: u32, out: &mut Vec<u8>)
    requires
        1 <= tag <= 0x1fff_ffff,
        wire <= 5,
    ensures
        final(out)@ == old(out)@ + key_bytes(tag as nat, wire as nat),
{
    put_varint(tag as u64 * 8 + wire as u64, out);
}

/// Reads the key at `pos`.
pub fn get_key(data: &[u8], pos: usize) -> (r: Result<(u32, u32, usize), FrameError>)
    requires
        pos <= data.len(),
    ensures
        match r {
            Ok((tag, wire, p)) => {
                &&& pos < p <= data.len()
                &&& wire <= 5
                &&& read_key(data@.skip(pos as int)) == Ok::<(nat, nat, Seq<u8>), FrameError>(
                    (tag as nat, wire as nat, data@.skip(p as int)),
                )
            },
            Err(e) => read_key(data@.skip(pos as int)) == Err::<(nat, nat, Seq<u8>), FrameError>(e),
        },
{
    match get_varint(data, pos) {
        Err(e) => Err(e),
        Ok((k, p)) => if k > 0xffff_ffff {
            Err(FrameError::InvalidKey)
        } else if k % 8 > 5 {
            Err(FrameError::InvalidWireType)
        } else if k / 8 == 0 {
            Err(FrameError::InvalidTag)
        } else {
            Ok(((k / 8) as u32, (k % 8) as u32, p))
        },
    }
}

// ---------------------------------------------------------------------------
// Delimited data
// ---------------------------------------------------------------------------

/// The length-prefixed form of `bytes`.
pub open spec fn delimited_bytes(bytes: Seq<u8>) -> Seq<u8> {
    varint_bytes(bytes.len()) + bytes
}

/// The length-prefixed data at the front of `s`.
pub open spec fn read_delimited(s: Seq<u8>) -> Result<(Seq<u8>, Seq<u8>), FrameError> {
    match read_varint(s) {
        Err(e) => Err(e),
        Ok((len, rest)) => if len > rest.len() {
            Err(FrameError::BufferUnderflow)
        } else {
            Ok((rest.take(len as int), rest.skip(len as int)))
        },
    }
}

/// Reading written length-prefixed data gives it back.
pub proof fn lemma_delimited_roundtrip(bytes: Seq<u8>, post: Seq<u8>)
    requires
        bytes.len() <= u64::MAX,
    ensures
        read_delimited(delimited_bytes(bytes) + post) == Ok::<(Seq<u8>, Seq<u8>), FrameError>((bytes, post)),
{
    lemma_varint_bound();
    lemma_varint_roundtrip(bytes.len(), 0, bytes + post);
    assert(delimited_bytes(bytes) + post =~= varint_bytes(bytes.len()) + (bytes + post));
    assert((bytes + post).take(bytes.len() as int) =~= bytes);
    assert((bytes + post).skip(bytes.len() as int) =~= post);
}

/// Appends all of `bytes`.
pub fn put_bytes(bytes: &[u8], out: &mut Vec<u8>)
    ensures
        final(out)@ == old(out)@ + bytes@,
{
    let mut i: usize = 0;
    assert(out@ + bytes@.take(0) =~= out@);
    while i < bytes.len()
        invariant
            i <= bytes.len(),
            out@ == old(out)@ + bytes@.take(i as int),
        decreases bytes.len() - i,
    {
        out.push(bytes[i]);
        i += 1;
        assert(bytes@.take(i as int) =~= bytes@.take(i - 1).push(bytes@[i - 1]));
        assert(out@ =~= old(out)@ + bytes@.take(i as int));
    }
    assert(bytes@.take(bytes@.len() as int) =~= bytes@);
}

/// Appends `bytes` behind their length.
pub fn put_delimited(bytes: &[u8], out: &mut Vec<u8>)
    ensures
        final(out)@ == old(out)@ + delimited_bytes(bytes@),
{
    put_varint(bytes.len() as u64, out);
    put_bytes(bytes, out);
    assert(out@ =~= old(out)@ + delimited_bytes(bytes@));
}

/// Copies `data[from..to]`.
pub fn copy_range(data: &[u8], from: usize, to: usize) -> (r: Vec<u8>)
    requires
        from <= to <= data.len(),
    ensures
        r@ == data@.subrange(from as int, to as int),
{
    let mut out: Vec<u8> = Vec::new();
    let mut i: usize = from;
    while i < to
        invariant
            from <= i <= to <= data.len(),
            out@ == data@.subrange(from as int, i as int),
        decreases to - i,
    {
        out.push(data[i]);
        i += 1;
        assert(data@.subrange(from as int, i as int) =~= data@.subrange(from as int, i - 1).push(data@[i - 1]));
    }
    out
}

/// Reads the length-prefixed data at `pos`.
pub fn get_delimited(data: &[u8], pos: usize) -> (r: Result<(Vec<u8>, usize), FrameError>)
    requires
        pos <= data.len(),
    ensures
        match r {
            Ok((bytes, p)) => {
                &&& pos < p <= data.len()
                &&& read_delimited(data@.skip(pos as int)) == Ok::<(Seq<u8>, Seq<u8>), FrameError>(
                    (bytes@, data@.skip(p as int)),
                )
            },
            Err(e) => read_delimited(data@.skip(pos as int)) == Err::<(Seq<u8>, Seq<u8>), FrameError>(e),
        },
{
    match get_varint(data, pos) {
        Err(e) => Err(e),
        Ok((len, p)) => if len > (data.len() - p) as u64 {
            Err(FrameError::BufferUnderflow)
        } else {
            let to: usize = p + len as usize;
            assert(data@.skip(p as int).take(len as int) =~= data@.subrange(p as int, to as int));
            assert(data@.skip(p as int).skip(len as int) =~= data@.skip(to as int));
            Ok((copy_range(data, p, to), to))
        },
    }
}

// ---------------------------------------------------------------------------
// Skipping
// ---------------------------------------------------------------------------

/// What is left of `s` behind `n` raw bytes.
pub open spec fn drop_raw(s: Seq<u8>, n: nat) -> Result<Seq<u8>, FrameError> {
    if n > s.len() {
        Err(FrameError::BufferUnderflow)
    } else {
        Ok(s.skip(n as int))
    }
}

/// What is left of `s` behind the value of an unknown field. Unknown groups may
/// nest `depth` deep.
pub open spec fn skip_value(wire: nat, tag: nat, s: Seq<u8>, depth: nat) -> Result<Seq<u8>, FrameError>
    decreases depth, s.len(), 1nat,
{
    if depth == 0 {
        Err(FrameError::RecursionLimit)
    } else if wire == WIRE_VARINT {
        match read_varint(s) {
            Ok((v, rest)) => Ok(rest),
            Err(e) => Err(e),
        }
    } else if wire == WIRE_FIXED32 {
        drop_raw(s, 4)
    } else if wire == WIRE_FIXED64 {
        drop_raw(s, 8)
    } else if wire == WIRE_DELIMITED {
        match read_delimited(s) {
            Ok((bytes, rest)) => Ok(rest),
            Err(e) => Err(e),
        }
    } else if wire == WIRE_START_GROUP {
        skip_group(tag, s, depth)
    } else {
        Err(FrameError::UnexpectedEndGroup)
    }
}

/// What is left of `s` behind the fields of the group `tag` and its end. Every
/// field takes at least the bytes of its key, so the group gets shorter with
/// each.
pub open spec fn skip_group(tag: nat, s: Seq<u8>, depth: nat) -> Result<Seq<u8>, FrameError>
    decreases depth, s.len(), 0nat,
{
    if depth == 0 {
        Err(FrameError::RecursionLimit)
    } else {
        match read_key(s) {
            Err(e) => Err(e),
            Ok((inner, wire, rest)) => if wire == WIRE_END_GROUP {
                if inner == tag {
                    Ok(rest)
                } else {
                    Err(FrameError::UnexpectedEndGroup)
                }
            } else {
                match skip_value(wire, inner, rest, (depth - 1) as nat) {
                    Err(e) => Err(e),
                    Ok(after) => if after.len() < s.len() {
                        skip_group(tag, after, depth)
                    } else {
                        Err(FrameError::InvalidVarint)
                    },
                }
            },
        }
    }
}

fn skip_raw(data: &[u8], pos: usize, n: usize) -> (r: Result<usize, FrameError>)
    requires
        pos <= data.len(),
    ensures
        match r {
            Ok(p) => pos <= p <= data.len() && drop_raw(data@.skip(pos as int), n as nat) == Ok::<Seq<u8>, FrameError>(
                data@.skip(p as int),
            ),
            Err(e) => drop_raw(data@.skip(pos as int), n as nat) == Err::<Seq<u8>, FrameError>(e),
        },
{
    if n > data.len() - pos {
        Err(FrameError::BufferUnderflow)
    } else {
        assert(data@.skip(pos as int).skip(n as int) =~= data@.skip(pos + n));
        Ok(pos + n)
    }
}

/// Moves past the value of an unknown field that starts at `pos`.
pub fn skip_field(wire: u32, tag: u32, data: &[u8], pos: usize, depth: u32) -> (r: Result<usize, FrameError>)
    requires
        pos <= data.len(),
    ensures
        match r {
            Ok(p) => {
                &&& pos <= p <= data.len()
                &&& skip_value(wire as nat, tag as nat, data@.skip(pos as int), depth as nat) == Ok::<Seq<u8>, FrameError>(
                    data@.skip(p as int),
                )
            },
            Err(e) => skip_value(wire as nat, tag as nat, data@.skip(pos as int), depth as nat) == Err::<
                Seq<u8>,
                FrameError,
            >(e),
        },
    decreases depth, data.len() - pos, 1nat,
{
    if depth == 0 {
        return Err(FrameError::RecursionLimit);
    }
    if wire == WIRE_VARINT {
        match get_varint(data, pos) {
            Ok((_, p)) => Ok(p),
            Err(e) => Err(e),
        }
    } else if wire == WIRE_FIXED32 {
        skip_raw(data, pos, 4)
    } else if wire == WIRE_FIXED64 {
        skip_raw(data, pos, 8)
    } else if wire == WIRE_DELIMITED {
        match get_varint(data, pos) {
            Err(e) => Err(e),
            Ok((len, p)) => if len > (data.len() - p) as u64 {
                Err(FrameError::BufferUnderflow)
            } else {
                assert(data@.skip(p as int).skip(len as int) =~= data@.skip(p + len));
                Ok(p + len as usize)
            },
        }
    } else if wire == WIRE_START_GROUP {
        skip_open_group(tag, data, pos, depth)
    } else {
        Err(FrameError::UnexpectedEndGroup)
    }
}

fn skip_open_group(tag: u32, data: &[u8], pos: usize, depth: u32) -> (r: Result<usize, FrameError>)
    requires
        pos <= data.len(),
        depth > 0,
    ensures
        match r {
            Ok(p) => {
                &&& pos <= p <= data.len()
                &&& skip_group(tag as nat, data@.skip(pos as int), depth as nat) == Ok::<Seq<u8>, FrameError>(
                    data@.skip(p as int),
                )
            },
            Err(e) => skip_group(tag as nat, data@.skip(pos as int), depth as nat) == Err::<Seq<u8>, FrameError>(e),
        },
    decreases depth, data.len() - pos, 0nat,
{
    let mut at: usize = pos;
    loop
        invariant
            pos <= at <= data.len(),
            depth > 0,
            skip_group(tag as nat, data@.skip(pos as int), depth as nat) == skip_group(
                tag as nat,
                data@.skip(at as int),
                depth as nat,
            ),
        decreases data.len() - at,
    {
        match get_key(data, at) {
            Err(e) => {
                return Err(e);
            },
            Ok((inner, wire, p)) => {
                if wire == WIRE_END_GROUP {
                    if inner == tag {
                        return Ok(p);
                    }
                    return Err(FrameError::UnexpectedEndGroup);
                }
                match skip_field(wire, inner, data, p, depth - 1) {
                    Err(e) => {
                        return Err(e);
                    },
                    Ok(q) => {
                        at = q;
                    },
                }
            },
        }
    }
}

/// A number goes out in groups of seven bits, the lowest first: all bytes but the last have
/// their high bit set.
pub proof fn law_varint_is_in_groups_of_seven(v: nat)
    ensures
        v < 128 ==> varint_bytes(v) == seq![v as u8],
        v >= 128 ==> varint_bytes(v)[0] as nat == 128 + v % 128,
        v >= 128 ==> varint_bytes(v).skip(1) == varint_bytes(v / 128),
{
    if v >= 128 {
        assert(varint_bytes(v).skip(1) =~= varint_bytes(v / 128));
    }
}

/// A key is the tag in front of three bits of the wire type; data in length-prefixed form
/// is its length and then the data.
pub proof fn law_keys_and_lengths_lead(tag: nat, wire: nat, bytes: Seq<u8>)
    ensures
        tag < 16 && wire < 8 ==> key_bytes(tag, wire) == seq![(8 * tag + wire) as u8],
        delimited_bytes(bytes) == varint_bytes(bytes.len()) + bytes,
{
}

/// Bytes are left out from the front, where there are that many.
pub proof fn law_skipping_leaves_the_rest(front: Seq<u8>, rest: Seq<u8>, n: nat)
    ensures
        drop_raw(front + rest, front.len()) == Ok::<Seq<u8>, FrameError>(rest),
        n > rest.len() ==> drop_raw(rest, n) is Err,
{
    assert((front + rest).skip(front.len() as int) =~= rest);
}

} // verus!

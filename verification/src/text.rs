//! Character-level text operations.
//!
//! Every function here is stated over `Seq<char>`, the view of `&str` and
//! `String`.
use vstd::prelude::*;
use vstd::string::*;
use vstd::utf8::*;

verus! {

broadcast use {vstd::utf8::encode_utf8_decode_utf8, vstd::utf8::encode_utf8_valid_utf8};

/// `String::push` of std: appends one character at the end.
pub assume_specification[ String::push ](s: &mut String, c: char)
    ensures
        final(s)@ == old(s)@.push(c),
;

/// `String::from_utf8` of std: succeeds exactly on well-formed UTF-8, and then
/// holds the characters that the bytes encode.
#[verifier::external_body]
pub(crate) fn string_from_utf8(bytes: Vec<u8>) -> (r: Option<String>)
    ensures
        r is Some <==> valid_utf8(bytes@),
        r matches Some(s) ==> s@ == decode_utf8(bytes@),
{
    String::from_utf8(bytes).ok()
}

/// Whether two strings hold the same characters.
pub fn str_eq(a: &str, b: &str) -> (r: bool)
    ensures
        r == (a@ == b@),
{
    let x: &[u8] = a.as_bytes();
    let y: &[u8] = b.as_bytes();
    if x.len() != y.len() {
        assert(x@ != y@);
        return false;
    }
    let mut i: usize = 0;
    while i < x.len()
        invariant
            i <= x.len(),
            x.len() == y.len(),
            x@ == a.spec_bytes(),
            y@ == b.spec_bytes(),
            forall|k: int| 0 <= k < i ==> x@[k] == y@[k],
        decreases x.len() - i,
    {
        if x[i] != y[i] {
            assert(x@ != y@);
            return false;
        }
        i += 1;
    }
    proof {
        assert(x@ =~= y@);
        encode_utf8_decode_utf8(a@);
        encode_utf8_decode_utf8(b@);
    }
    true
}

/// The characters of a string, one by one.
pub fn chars_of(s: &str) -> (r: Vec<char>)
    ensures
        r@ == s@,
{
    let mut out: Vec<char> = Vec::new();
    for c in it: s.chars()
        invariant
            out@ == it.seq().take(it.index()),
            it.seq() == s@,
    {
        out.push(c);
    }
    assert(s@.take(s@.len() as int) =~= s@);
    out
}

/// The string made of the characters `v[from..to]`.
pub fn string_of(v: &Vec<char>, from: usize, to: usize) -> (r: String)
    requires
        from <= to <= v.len(),
    ensures
        r@ == v@.subrange(from as int, to as int),
{
    let mut out = String::new();
    let mut i: usize = from;
    while i < to
        invariant
            from <= i <= to <= v.len(),
            out@ == v@.subrange(from as int, i as int),
        decreases to - i,
    {
        out.push(v[i]);
        i += 1;
        assert(v@.subrange(from as int, i as int) =~= v@.subrange(from as int, i - 1).push(v@[i - 1]));
    }
    out
}

/// Two texts one behind the other.
pub fn cat(a: &str, b: &str) -> (r: String)
    ensures
        r@ == a@ + b@,
{
    let mut out = a.to_owned();
    out.append(b);
    out
}

/// Three texts one behind the other.
pub fn cat3(a: &str, b: &str, c: &str) -> (r: String)
    ensures
        r@ == a@ + b@ + c@,
{
    let mut out = cat(a, b);
    out.append(c);
    out
}

/// Four texts one behind the other.
pub fn cat4(a: &str, b: &str, c: &str, d: &str) -> (r: String)
    ensures
        r@ == a@ + b@ + c@ + d@,
{
    let mut out = cat3(a, b, c);
    out.append(d);
    out
}

// ---------------------------------------------------------------------------
// Decimal numbers
// ---------------------------------------------------------------------------

/// The digit for a number below ten.
pub open spec fn digit(d: nat) -> char {
    ('0' as u32 + d) as char
}

/// The decimal digits of a number.
pub open spec fn nat_text(n: nat) -> Seq<char>
    decreases n,
{
    if n < 10 {
        seq![digit(n)]
    } else {
        nat_text(n / 10).push(digit(n % 10))
    }
}

/// A number in decimal, with a sign where it is negative.
pub open spec fn int_text(n: int) -> Seq<char> {
    if n < 0 {
        seq!['-'] + nat_text((-n) as nat)
    } else {
        nat_text(n as nat)
    }
}

fn digit_char(d: u64) -> (r: char)
    requires
        d < 10,
    ensures
        r == digit(d as nat),
{
    if d == 0 {
        '0'
    } else if d == 1 {
        '1'
    } else if d == 2 {
        '2'
    } else if d == 3 {
        '3'
    } else if d == 4 {
        '4'
    } else if d == 5 {
        '5'
    } else if d == 6 {
        '6'
    } else if d == 7 {
        '7'
    } else if d == 8 {
        '8'
    } else {
        '9'
    }
}

fn push_decimal(n: u64, out: &mut String)
    ensures
        final(out)@ == old(out)@ + nat_text(n as nat),
    decreases n,
{
    if n < 10 {
        out.push(digit_char(n));
        assert(out@ =~= old(out)@ + nat_text(n as nat));
    } else {
        push_decimal(n / 10, out);
        out.push(digit_char(n % 10));
        assert(out@ =~= old(out)@ + nat_text(n as nat));
    }
}

/// A number in decimal.
pub fn u64_text(n: u64) -> (r: String)
    ensures
        r@ == nat_text(n as nat),
{
    let mut out = String::new();
    push_decimal(n, &mut out);
    assert(out@ =~= nat_text(n as nat));
    out
}

/// A number in decimal, with a sign where it is negative.
pub fn i64_text(n: i64) -> (r: String)
    ensures
        r@ == int_text(n as int),
{
    let mut out = String::new();
    if n < 0 {
        out.push('-');
        assert(out@ =~= seq!['-']);
        push_decimal((-((n + 1))) as u64 + 1, &mut out);
    } else {
        push_decimal(n as u64, &mut out);
        assert(out@ =~= nat_text(n as nat));
    }
    out
}

// ---------------------------------------------------------------------------
// Reading decimal numbers
// ---------------------------------------------------------------------------

/// Whether a character is a decimal digit.
pub open spec fn is_digit(c: char) -> bool {
    '0' <= c <= '9'
}

/// Whether a text consists of decimal digits.
pub open spec fn all_digits(s: Seq<char>) -> bool {
    forall|i: int| 0 <= i < s.len() ==> is_digit(#[trigger] s[i])
}

/// The number that digits stand for.
pub open spec fn digits_value(s: Seq<char>) -> nat
    decreases s.len(),
{
    if s.len() == 0 {
        0
    } else {
        digits_value(s.drop_last()) * 10 + (s.last() as nat - '0' as nat) as nat
    }
}

/// The number that a text of at least one digit stands for.
pub open spec fn decimal(s: Seq<char>) -> Option<nat> {
    if s.len() > 0 && all_digits(s) {
        Some(digits_value(s))
    } else {
        None
    }
}

/// The number that a text stands for: digits, with a sign in front or none.
pub open spec fn signed_decimal(s: Seq<char>) -> Option<int> {
    if s.len() > 0 && s[0] == '-' {
        match decimal(s.skip(1)) {
            Some(n) => Some(-n),
            None => None,
        }
    } else {
        match unsigned_decimal(s) {
            Some(n) => Some(n as int),
            None => None,
        }
    }
}

/// The number that a text stands for: digits, with a plus in front or none.
pub open spec fn unsigned_decimal(s: Seq<char>) -> Option<nat> {
    if s.len() > 0 && s[0] == '+' {
        decimal(s.skip(1))
    } else {
        decimal(s)
    }
}

/// The number that the digits `v[from..to]` stand for, where it is in range.
pub fn read_digits(v: &Vec<char>, from: usize, to: usize) -> (r: Option<u64>)
    requires
        from <= to <= v.len(),
    ensures
        match r {
            Some(n) => decimal(v@.subrange(from as int, to as int)) == Some(n as nat),
            None => match decimal(v@.subrange(from as int, to as int)) {
                Some(n) => n > u64::MAX,
                None => true,
            },
        },
{
    if from == to {
        return None;
    }
    let mut n: u64 = 0;
    let mut i: usize = from;
    let mut fits: bool = true;
    let ghost whole = v@.subrange(from as int, to as int);
    while i < to
        invariant
            from <= i <= to <= v.len(),
            whole == v@.subrange(from as int, to as int),
            forall|k: int| from <= k < i ==> is_digit(#[trigger] v@[k]),
            fits ==> n == digits_value(v@.subrange(from as int, i as int)),
            !fits ==> digits_value(v@.subrange(from as int, i as int)) > u64::MAX,
        decreases to - i,
    {
        let c: char = v[i];
        if c < '0' || '9' < c {
            assert(!is_digit(whole[i - from]));
            return None;
        }
        let ghost before = v@.subrange(from as int, i as int);
        let ghost after = v@.subrange(from as int, i + 1);
        assert(after.drop_last() =~= before);
        assert(after.last() == c);
        let d: u64 = (c as u32 - '0' as u32) as u64;
        if fits {
            if n > (u64::MAX - d) / 10 {
                fits = false;
            } else {
                n = n * 10 + d;
            }
        }
        i += 1;
    }
    assert(all_digits(whole)) by {
        assert forall|k: int| 0 <= k < whole.len() implies is_digit(#[trigger] whole[k]) by {
            assert(is_digit(v@[from + k]));
        }
    }
    if fits {
        Some(n)
    } else {
        None
    }
}

/// Reads a number not below zero, as `str::parse` does.
pub fn parse_u64(s: &str) -> (r: Option<u64>)
    ensures
        match r {
            Some(n) => unsigned_decimal(s@) == Some(n as nat),
            None => match unsigned_decimal(s@) {
                Some(n) => n > u64::MAX,
                None => true,
            },
        },
{
    let v = chars_of(s);
    let from: usize = if v.len() > 0 && v[0] == '+' {
        1
    } else {
        0
    };
    assert(v@.subrange(from as int, v@.len() as int) =~= if from == 1 {
        s@.skip(1)
    } else {
        s@
    });
    read_digits(&v, from, v.len())
}

/// Reads a size, as `str::parse` does.
pub fn parse_usize(s: &str) -> (r: Option<usize>)
    ensures
        match r {
            Some(n) => unsigned_decimal(s@) == Some(n as nat),
            None => match unsigned_decimal(s@) {
                Some(n) => n > usize::MAX,
                None => true,
            },
        },
{
    match parse_u64(s) {
        Some(n) => if n <= usize::MAX as u64 {
            Some(n as usize)
        } else {
            None
        },
        None => None,
    }
}

/// Reads a number, as `str::parse` does.
pub fn parse_i64(s: &str) -> (r: Option<i64>)
    ensures
        match r {
            Some(n) => signed_decimal(s@) == Some(n as int),
            None => match signed_decimal(s@) {
                Some(n) => n > i64::MAX || n < i64::MIN,
                None => true,
            },
        },
{
    let v = chars_of(s);
    if v.len() > 0 && v[0] == '-' {
        assert(v@.subrange(1, v@.len() as int) =~= s@.skip(1));
        match read_digits(&v, 1, v.len()) {
            Some(n) => if n <= 0x7fff_ffff_ffff_ffff {
                Some(-(n as i64))
            } else if n == 0x8000_0000_0000_0000 {
                Some(i64::MIN)
            } else {
                None
            },
            None => None,
        }
    } else {
        match parse_u64(s) {
            Some(n) => if n <= 0x7fff_ffff_ffff_ffff {
                Some(n as i64)
            } else {
                None
            },
            None => None,
        }
    }
}

/// The digits of a number stand for it.
pub proof fn law_decimal_is_read_back(n: nat)
    ensures
        decimal(nat_text(n)) == Some(n),
    decreases n,
{
    if n < 10 {
        assert(nat_text(n).drop_last() =~= Seq::<char>::empty());
        assert(is_digit(digit(n)));
        assert(nat_text(n).last() == digit(n));
        assert(digits_value(nat_text(n)) == digits_value(Seq::<char>::empty()) * 10 + n);
    } else {
        law_decimal_is_read_back(n / 10);
        assert(nat_text(n).drop_last() =~= nat_text(n / 10));
        assert(is_digit(digit(n % 10)));
        assert forall|i: int| 0 <= i < nat_text(n).len() implies is_digit(#[trigger] nat_text(n)[i]) by {
            if i < nat_text(n / 10).len() {
                assert(nat_text(n)[i] == nat_text(n / 10)[i]);
            }
        }
    }
}

// ---------------------------------------------------------------------------
// Searching
// ---------------------------------------------------------------------------

/// Whether `pat` stands in `s` at the place `i`.
pub open spec fn occurs_at(s: Seq<char>, pat: Seq<char>, i: int) -> bool {
    0 <= i && i + pat.len() <= s.len() && s.subrange(i, i + pat.len()) == pat
}

/// Whether `s` begins with `pat`.
pub open spec fn begins_with(s: Seq<char>, pat: Seq<char>) -> bool {
    occurs_at(s, pat, 0)
}

/// Whether `pat` stands somewhere in `s`.
pub open spec fn has_text(s: Seq<char>, pat: Seq<char>) -> bool {
    exists|i: int| occurs_at(s, pat, i)
}

/// Whether `pat` stands in `s` at the place `i`.
pub fn matches_at(s: &Vec<char>, pat: &Vec<char>, i: usize) -> (r: bool)
    ensures
        r == occurs_at(s@, pat@, i as int),
{
    if i > s.len() || pat.len() > s.len() - i {
        return false;
    }
    let mut k: usize = 0;
    while k < pat.len()
        invariant
            k <= pat.len(),
            i + pat.len() <= s.len(),
            forall|j: int| 0 <= j < k ==> s@[i + j] == pat@[j],
        decreases pat.len() - k,
    {
        if s[i + k] != pat[k] {
            assert(s@.subrange(i as int, i + pat@.len())[k as int] != pat@[k as int]);
            return false;
        }
        k += 1;
    }
    assert(s@.subrange(i as int, i + pat@.len()) =~= pat@);
    true
}

/// Whether `s` begins with `pat`.
pub fn starts_with(s: &str, pat: &str) -> (r: bool)
    ensures
        r == begins_with(s@, pat@),
{
    matches_at(&chars_of(s), &chars_of(pat), 0)
}

/// Whether `pat` stands somewhere in `s`.
pub fn contains_text(s: &str, pat: &str) -> (r: bool)
    ensures
        r == has_text(s@, pat@),
{
    let v = chars_of(s);
    let p = chars_of(pat);
    let mut i: usize = 0;
    while i < v.len()
        invariant
            i <= v.len(),
            v@ == s@,
            p@ == pat@,
            forall|k: int| 0 <= k < i ==> !occurs_at(s@, pat@, k),
        decreases v.len() - i,
    {
        if matches_at(&v, &p, i) {
            assert(occurs_at(s@, pat@, i as int));
            return true;
        }
        i += 1;
    }
    let last = matches_at(&v, &p, i);
    if last {
        assert(occurs_at(s@, pat@, i as int));
    }
    last
}

/// The place of the first `c` in `s`, or the length of `s`.
pub open spec fn index_of_char(s: Seq<char>, c: char) -> nat
    decreases s.len(),
{
    if s.len() == 0 || s[0] == c {
        0
    } else {
        1 + index_of_char(s.skip(1), c)
    }
}

/// The place of the first `c` is in range exactly where there is one, and none
/// stands before it.
pub proof fn lemma_index_of_char(s: Seq<char>, c: char)
    ensures
        index_of_char(s, c) <= s.len(),
        index_of_char(s, c) < s.len() ==> s[index_of_char(s, c) as int] == c,
        forall|i: int| 0 <= i < index_of_char(s, c) ==> s[i] != c,
    decreases s.len(),
{
    if s.len() != 0 && s[0] != c {
        lemma_index_of_char(s.skip(1), c);
        assert forall|i: int| 0 <= i < index_of_char(s, c) implies s[i] != c by {
            if i > 0 {
                assert(s.skip(1)[i - 1] == s[i]);
            }
        }
    }
}

/// A place with `c` and none before it is the place of the first `c`.
pub proof fn lemma_index_unique(s: Seq<char>, c: char, at: int)
    requires
        0 <= at <= s.len(),
        at < s.len() ==> s[at] == c,
        forall|i: int| 0 <= i < at ==> s[i] != c,
    ensures
        index_of_char(s, c) == at,
{
    lemma_index_of_char(s, c);
}

/// The place of the first `c` in `s` from `from` on, or the length of `s`.
pub fn find_char(s: &Vec<char>, from: usize, c: char) -> (r: usize)
    requires
        from <= s.len(),
    ensures
        from <= r <= s.len(),
        r == from + index_of_char(s@.skip(from as int), c),
        r < s.len() ==> s@[r as int] == c,
{
    let mut i: usize = from;
    while i < s.len() && s[i] != c
        invariant
            from <= i <= s.len(),
            forall|k: int| from <= k < i ==> s@[k] != c,
        decreases s.len() - i,
    {
        i += 1;
    }
    proof {
        lemma_index_unique(s@.skip(from as int), c, i - from);
    }
    i
}

// ---------------------------------------------------------------------------
// Splitting
// ---------------------------------------------------------------------------

/// What stands before and behind the first `c`.
pub open spec fn split_once_at(s: Seq<char>, c: char) -> Option<(Seq<char>, Seq<char>)> {
    let i = index_of_char(s, c) as int;
    if i < s.len() {
        Some((s.take(i), s.skip(i + 1)))
    } else {
        None
    }
}

/// What stands before and behind the first `c`.
pub fn split_once(s: &str, c: char) -> (r: Option<(String, String)>)
    ensures
        match r {
            Some((a, b)) => split_once_at(s@, c) == Some((a@, b@)),
            None => split_once_at(s@, c) is None,
        },
{
    let v = chars_of(s);
    let i: usize = find_char(&v, 0, c);
    assert(v@.skip(0) =~= v@);
    if i < v.len() {
        let a = string_of(&v, 0, i);
        let b = string_of(&v, i + 1, v.len());
        assert(a@ =~= s@.take(i as int));
        assert(b@ =~= s@.skip(i + 1));
        Some((a, b))
    } else {
        None
    }
}

/// The pieces of `s` between the places of `c`; one more than there are places.
pub open spec fn split_at_char(s: Seq<char>, c: char) -> Seq<Seq<char>>
    decreases s.len(),
    when true
    via split_at_char_decreases
{
    let i = index_of_char(s, c) as int;
    if i < s.len() {
        seq![s.take(i)] + split_at_char(s.skip(i + 1), c)
    } else {
        seq![s]
    }
}

#[via_fn]
proof fn split_at_char_decreases(s: Seq<char>, c: char) {
    lemma_index_of_char(s, c);
}

/// What each string of a list holds.
pub open spec fn texts(v: Seq<String>) -> Seq<Seq<char>> {
    v.map_values(|s: String| s@)
}

/// The pieces of `s` between the places of `c`.
pub fn split(s: &str, c: char) -> (r: Vec<String>)
    ensures
        texts(r@) == split_at_char(s@, c),
{
    let v = chars_of(s);
    let mut out: Vec<String> = Vec::new();
    let mut from: usize = 0;
    assert(v@.skip(0) =~= v@);
    assert(texts(out@) + split_at_char(s@, c) =~= split_at_char(s@, c));
    loop
        invariant
            from <= v.len(),
            v@ == s@,
            texts(out@) + split_at_char(v@.skip(from as int), c) == split_at_char(s@, c),
        decreases v.len() - from,
    {
        let i: usize = find_char(&v, from, c);
        let ghost rest = v@.skip(from as int);
        let ghost before = texts(out@);
        let piece = string_of(&v, from, i);
        assert(piece@ =~= rest.take(i - from));
        out.push(piece);
        assert(texts(out@) =~= before.push(piece@));
        if i < v.len() {
            assert(rest.skip(i - from + 1) =~= v@.skip(i + 1));
            assert(before + (seq![piece@] + split_at_char(v@.skip(i + 1), c)) =~= before.push(piece@) + split_at_char(
                v@.skip(i + 1),
                c,
            ));
            from = i + 1;
        } else {
            assert(rest.take(i - from) =~= rest);
            assert(before + seq![rest] =~= before.push(rest));
            return out;
        }
    }
}

/// The pieces one behind the other, with `sep` between them.
pub open spec fn join_texts(parts: Seq<Seq<char>>, sep: Seq<char>) -> Seq<char>
    decreases parts.len(),
{
    if parts.len() == 0 {
        Seq::empty()
    } else if parts.len() == 1 {
        parts[0]
    } else {
        join_texts(parts.drop_last(), sep) + sep + parts.last()
    }
}

/// The pieces one behind the other, with `sep` between them.
pub fn join(parts: &Vec<String>, sep: &str) -> (r: String)
    ensures
        r@ == join_texts(texts(parts@), sep@),
{
    let ghost views = texts(parts@);
    let mut out = String::new();
    let mut i: usize = 0;
    assert(views.take(0) =~= Seq::<Seq<char>>::empty());
    while i < parts.len()
        invariant
            i <= parts.len(),
            views == texts(parts@),
            out@ == join_texts(views.take(i as int), sep@),
        decreases parts.len() - i,
    {
        let ghost before = out@;
        if i > 0 {
            out.append(sep);
        }
        out.append(parts[i].as_str());
        i += 1;
        assert(views.take(i as int).last() == views[i - 1]);
        assert(views.take(i as int).drop_last() =~= views.take(i - 1));
        assert(i == 1 ==> out@ =~= views[0]);
    }
    assert(views.take(views.len() as int) =~= views);
    out
}

// ---------------------------------------------------------------------------
// Replacing
// ---------------------------------------------------------------------------

/// `s` with every occurrence of `pat`, found from the left without overlap,
/// replaced by `to`; `pat` is not empty.
pub open spec fn replaced(s: Seq<char>, pat: Seq<char>, to: Seq<char>) -> Seq<char>
    decreases s.len(),
{
    if s.len() == 0 || pat.len() == 0 {
        s
    } else if begins_with(s, pat) {
        to + replaced(s.skip(pat.len() as int), pat, to)
    } else {
        seq![s[0]] + replaced(s.skip(1), pat, to)
    }
}

/// `s` with every occurrence of `pat` replaced by `to`.
pub fn replace(s: &str, pat: &str, to: &str) -> (r: String)
    requires
        pat@.len() > 0,
    ensures
        r@ == replaced(s@, pat@, to@),
{
    let v = chars_of(s);
    let p = chars_of(pat);
    let mut out = String::new();
    let mut i: usize = 0;
    assert(v@.skip(0) =~= v@);
    assert(out@ + replaced(v@.skip(0), pat@, to@) =~= replaced(s@, pat@, to@));
    while i < v.len()
        invariant
            i <= v.len(),
            v@ == s@,
            p@ == pat@,
            pat@.len() > 0,
            out@ + replaced(v@.skip(i as int), pat@, to@) == replaced(s@, pat@, to@),
        decreases v.len() - i,
    {
        let ghost rest = v@.skip(i as int);
        let ghost before = out@;
        if matches_at(&v, &p, i) {
            proof {
                assert(rest.subrange(0, pat@.len() as int) =~= v@.subrange(i as int, i + pat@.len()));
                assert(begins_with(rest, pat@));
                assert(rest.skip(pat@.len() as int) =~= v@.skip(i + pat@.len()));
            }
            out.append(to);
            i += p.len();
            assert(before + (to@ + replaced(v@.skip(i as int), pat@, to@)) =~= out@ + replaced(
                v@.skip(i as int),
                pat@,
                to@,
            ));
        } else {
            proof {
                if begins_with(rest, pat@) {
                    assert(rest.subrange(0, pat@.len() as int) =~= v@.subrange(i as int, i + pat@.len()));
                    assert(false);
                }
                assert(rest.skip(1) =~= v@.skip(i + 1));
            }
            out.push(v[i]);
            i += 1;
            assert(before + (seq![rest[0]] + replaced(v@.skip(i as int), pat@, to@)) =~= out@ + replaced(
                v@.skip(i as int),
                pat@,
                to@,
            ));
        }
    }
    assert(v@.skip(v@.len() as int) =~= Seq::<char>::empty());
    assert(out@ + Seq::<char>::empty() =~= out@);
    out
}

// ---------------------------------------------------------------------------
// Trimming
// ---------------------------------------------------------------------------

/// Whether a character is white space.
pub open spec fn is_space(c: char) -> bool {
    ||| '\u{9}' <= c <= '\u{d}'
    ||| c == ' '
    ||| c == '\u{85}'
    ||| c == '\u{a0}'
    ||| c == '\u{1680}'
    ||| '\u{2000}' <= c <= '\u{200a}'
    ||| c == '\u{2028}'
    ||| c == '\u{2029}'
    ||| c == '\u{202f}'
    ||| c == '\u{205f}'
    ||| c == '\u{3000}'
}

fn space(c: char) -> (r: bool)
    ensures
        r == is_space(c),
{
    ('\u{9}' <= c && c <= '\u{d}') || c == ' ' || c == '\u{85}' || c == '\u{a0}' || c == '\u{1680}' || ('\u{2000}' <= c
        && c <= '\u{200a}') || c == '\u{2028}' || c == '\u{2029}' || c == '\u{202f}' || c == '\u{205f}' || c
        == '\u{3000}'
}

/// `s` without white space at its front.
pub open spec fn trimmed_start(s: Seq<char>) -> Seq<char>
    decreases s.len(),
{
    if s.len() > 0 && is_space(s[0]) {
        trimmed_start(s.skip(1))
    } else {
        s
    }
}

/// `s` without white space at its end.
pub open spec fn trimmed_end(s: Seq<char>) -> Seq<char>
    decreases s.len(),
{
    if s.len() > 0 && is_space(s.last()) {
        trimmed_end(s.drop_last())
    } else {
        s
    }
}

/// `s` without white space at either end.
pub open spec fn trimmed(s: Seq<char>) -> Seq<char> {
    trimmed_end(trimmed_start(s))
}

/// `s` without white space at either end.
pub fn trim(s: &str) -> (r: String)
    ensures
        r@ == trimmed(s@),
{
    let v = chars_of(s);
    let mut from: usize = 0;
    assert(v@.skip(0) =~= v@);
    while from < v.len() && space(v[from])
        invariant
            from <= v.len(),
            v@ == s@,
            trimmed_start(v@.skip(from as int)) == trimmed_start(s@),
        decreases v.len() - from,
    {
        assert(v@.skip(from as int).skip(1) =~= v@.skip(from + 1));
        from += 1;
    }
    let mut to: usize = v.len();
    assert(v@.subrange(from as int, to as int) =~= v@.skip(from as int));
    while to > from && space(v[to - 1])
        invariant
            from <= to <= v.len(),
            v@ == s@,
            trimmed_end(v@.subrange(from as int, to as int)) == trimmed(s@),
        decreases to - from,
    {
        assert(v@.subrange(from as int, to as int).drop_last() =~= v@.subrange(from as int, to - 1));
        assert(v@.subrange(from as int, to as int).last() == v@[to - 1]);
        to -= 1;
    }
    assert(to > from ==> v@.subrange(from as int, to as int).last() == v@[to - 1]);
    string_of(&v, from, to)
}

/// Without white space at its ends nothing is left to trim.
pub proof fn lemma_trim_is_stable(s: Seq<char>)
    ensures
        trimmed(trimmed(s)) == trimmed(s),
{
    lemma_trimmed_start(s);
    let front = trimmed_start(s);
    lemma_trimmed_end(front);
    let both = trimmed(s);
    assert(both.len() > 0 ==> !is_space(both[0]));
    assert(trimmed_start(both) == both);
}

proof fn lemma_trimmed_start(s: Seq<char>)
    ensures
        trimmed_start(s).len() > 0 ==> !is_space(trimmed_start(s)[0]),
    decreases s.len(),
{
    if s.len() > 0 && is_space(s[0]) {
        lemma_trimmed_start(s.skip(1));
    }
}

proof fn lemma_trimmed_end(s: Seq<char>)
    ensures
        trimmed_end(s).len() > 0 ==> trimmed_end(s)[0] == s[0] && !is_space(trimmed_end(s).last()),
    decreases s.len(),
{
    if s.len() > 0 && is_space(s.last()) {
        lemma_trimmed_end(s.drop_last());
    }
}

/// `s` without any `c` at its end.
pub open spec fn without_tail(s: Seq<char>, c: char) -> Seq<char>
    decreases s.len(),
{
    if s.len() > 0 && s.last() == c {
        without_tail(s.drop_last(), c)
    } else {
        s
    }
}

/// `s` without any `c` at its end.
pub fn trim_tail(s: &str, c: char) -> (r: String)
    ensures
        r@ == without_tail(s@, c),
{
    let v = chars_of(s);
    let mut to: usize = v.len();
    assert(v@.subrange(0, to as int) =~= s@);
    while to > 0 && v[to - 1] == c
        invariant
            to <= v.len(),
            v@ == s@,
            without_tail(v@.subrange(0, to as int), c) == without_tail(s@, c),
        decreases to,
    {
        assert(v@.subrange(0, to as int).drop_last() =~= v@.subrange(0, to - 1));
        assert(v@.subrange(0, to as int).last() == v@[to - 1]);
        to -= 1;
    }
    assert(to > 0 ==> v@.subrange(0, to as int).last() == v@[to - 1]);
    string_of(&v, 0, to)
}

// ---------------------------------------------------------------------------
// Cutting to length
// ---------------------------------------------------------------------------

/// How much of a message of `limit` is left for its text once it is cut.
pub open spec fn kept_chars(limit: nat) -> nat {
    if limit >= 3 {
        (limit - 3) as nat
    } else {
        0
    }
}

/// `s` where it has no more than `limit` characters; otherwise its first
/// characters with three dots behind them.
pub open spec fn cut_to_limit(s: Seq<char>, limit: nat) -> Seq<char> {
    if s.len() <= limit {
        s
    } else {
        s.take(kept_chars(limit) as int) + "..."@
    }
}

/// Cuts a message to the limit of its platform, with three dots where something
/// was cut.
pub fn truncate_message(text: &str, limit: usize) -> (r: String)
    ensures
        r@ == cut_to_limit(text@, limit as nat),
{
    let v = chars_of(text);
    if v.len() <= limit {
        return text.to_owned();
    }
    let keep: usize = limit.saturating_sub(3);
    let mut out = string_of(&v, 0, keep);
    assert(out@ =~= text@.take(keep as int));
    out.append("...");
    out
}

/// A cut message has no more characters than its platform allows.
pub proof fn law_cut_fits(s: Seq<char>, limit: nat)
    requires
        limit >= 3,
    ensures
        cut_to_limit(s, limit).len() <= limit,
        s.len() > limit ==> cut_to_limit(s, limit) == s.take(limit - 3) + "..."@,
        s.len() > limit ==> cut_to_limit(s, limit).len() == limit,
{
    reveal_strlit("...");
}

/// A message that fits goes out as it is; of any other the beginning goes out.
pub proof fn law_cut_keeps_the_beginning(s: Seq<char>, limit: nat)
    ensures
        s.len() <= limit ==> cut_to_limit(s, limit) == s,
        s.len() > limit ==> cut_to_limit(s, limit).len() == kept_chars(limit) + 3,
        forall|i: int| 0 <= i < s.len() && i < kept_chars(limit) ==> #[trigger] cut_to_limit(s, limit)[i] == s[i],
{
    reveal_strlit("...");
}

// ---------------------------------------------------------------------------
// Laws
// ---------------------------------------------------------------------------

/// Whether a text holds no character `c`.
pub open spec fn lacks_char(s: Seq<char>, c: char) -> bool {
    forall|i: int| 0 <= i < s.len() ==> #[trigger] s[i] != c
}

/// What stands before anything that could be replaced stays.
pub proof fn lemma_replaced_behind(a: Seq<char>, rest: Seq<char>, pat: Seq<char>, to: Seq<char>)
    requires
        pat.len() > 0,
        lacks_char(a, pat[0]),
    ensures
        replaced(a + rest, pat, to) == a + replaced(rest, pat, to),
    decreases a.len(),
{
    if a.len() == 0 {
        assert(a + rest =~= rest);
        assert(a + replaced(rest, pat, to) =~= replaced(rest, pat, to));
    } else {
        let s = a + rest;
        assert(s[0] == a[0]);
        if begins_with(s, pat) {
            assert(s.subrange(0, pat.len() as int)[0] == s[0]);
        }
        assert(s.skip(1) =~= a.skip(1) + rest);
        assert forall|i: int| 0 <= i < a.skip(1).len() implies #[trigger] a.skip(1)[i] != pat[0] by {
            assert(a[i + 1] != pat[0]);
        }
        lemma_replaced_behind(a.skip(1), rest, pat, to);
        assert(seq![s[0]] + (a.skip(1) + replaced(rest, pat, to)) =~= a + replaced(rest, pat, to));
    }
}

/// Replacing puts the one text where the other was and leaves everything else as it
/// is.
pub proof fn law_replacing_changes_what_it_names(a: Seq<char>, pat: Seq<char>, b: Seq<char>, to: Seq<char>)
    requires
        pat.len() > 0,
        lacks_char(a, pat[0]),
        lacks_char(b, pat[0]),
    ensures
        replaced(a + pat + b, pat, to) == a + to + b,
        replaced(a, pat, to) == a,
{
    let none = Seq::<char>::empty();
    assert(a + pat + b =~= a + (pat + b));
    lemma_replaced_behind(a, pat + b, pat, to);
    assert((pat + b).subrange(0, pat.len() as int) =~= pat);
    assert((pat + b).skip(pat.len() as int) =~= b);
    assert(b =~= b + none);
    lemma_replaced_behind(b, none, pat, to);
    assert(replaced(none, pat, to) =~= none);
    assert(a + (to + b) =~= a + to + b);
    assert(a =~= a + none);
    lemma_replaced_behind(a, none, pat, to);
}

proof fn lemma_trimmed_front(a: Seq<char>, b: Seq<char>)
    requires
        forall|i: int| 0 <= i < a.len() ==> is_space(#[trigger] a[i]),
        b.len() == 0 || !is_space(b[0]),
    ensures
        trimmed_start(a + b) == b,
    decreases a.len(),
{
    if a.len() == 0 {
        assert(a + b =~= b);
    } else {
        assert((a + b)[0] == a[0]);
        assert((a + b).skip(1) =~= a.skip(1) + b);
        assert forall|i: int| 0 <= i < a.skip(1).len() implies is_space(#[trigger] a.skip(1)[i]) by {
            assert(is_space(a[i + 1]));
        }
        lemma_trimmed_front(a.skip(1), b);
    }
}

proof fn lemma_trimmed_back(b: Seq<char>, c: Seq<char>)
    requires
        forall|i: int| 0 <= i < c.len() ==> is_space(#[trigger] c[i]),
        b.len() == 0 || !is_space(b.last()),
    ensures
        trimmed_end(b + c) == b,
    decreases c.len(),
{
    if c.len() == 0 {
        assert(b + c =~= b);
    } else {
        assert((b + c).last() == c.last());
        assert(is_space(c[c.len() - 1]));
        assert((b + c).drop_last() =~= b + c.drop_last());
        assert forall|i: int| 0 <= i < c.drop_last().len() implies is_space(#[trigger] c.drop_last()[i]) by {
            assert(is_space(c[i]));
        }
        lemma_trimmed_back(b, c.drop_last());
    }
}

/// Trimming takes the white space off both ends and nothing else.
pub proof fn law_trimming_takes_the_space_off(a: Seq<char>, b: Seq<char>, c: Seq<char>)
    requires
        forall|i: int| 0 <= i < a.len() ==> is_space(#[trigger] a[i]),
        forall|i: int| 0 <= i < c.len() ==> is_space(#[trigger] c[i]),
        b.len() > 0,
        !is_space(b[0]),
        !is_space(b.last()),
    ensures
        trimmed(a + b + c) == b,
{
    assert(a + b + c =~= a + (b + c));
    assert((b + c)[0] == b[0]);
    lemma_trimmed_front(a, b + c);
    lemma_trimmed_back(b, c);
}

/// What is left of a trimmed text was in it.
pub proof fn lemma_trimmed_lacks(s: Seq<char>, c: char)
    requires
        lacks_char(s, c),
    ensures
        lacks_char(trimmed(s), c),
{
    lemma_start_lacks(s, c);
    lemma_end_lacks(trimmed_start(s), c);
}

proof fn lemma_start_lacks(s: Seq<char>, c: char)
    requires
        lacks_char(s, c),
    ensures
        lacks_char(trimmed_start(s), c),
    decreases s.len(),
{
    if s.len() > 0 && is_space(s[0]) {
        assert forall|i: int| 0 <= i < s.skip(1).len() implies #[trigger] s.skip(1)[i] != c by {
            assert(s[i + 1] != c);
        }
        lemma_start_lacks(s.skip(1), c);
    }
}

proof fn lemma_end_lacks(s: Seq<char>, c: char)
    requires
        lacks_char(s, c),
    ensures
        lacks_char(trimmed_end(s), c),
    decreases s.len(),
{
    if s.len() > 0 && is_space(s.last()) {
        assert forall|i: int| 0 <= i < s.drop_last().len() implies #[trigger] s.drop_last()[i] != c by {
            assert(s[i] != c);
        }
        lemma_end_lacks(s.drop_last(), c);
    }
}

/// One more part is joined on behind the separator.
pub proof fn lemma_join_pushed(parts: Seq<Seq<char>>, part: Seq<char>, sep: Seq<char>)
    requires
        parts.len() > 0,
    ensures
        join_texts(parts.push(part), sep) == join_texts(parts, sep) + sep + part,
{
    assert(parts.push(part).drop_last() =~= parts);
}

/// A text begins with a prefix exactly if it is the prefix and something behind it.
pub proof fn law_beginnings_are_prefixes(pat: Seq<char>, rest: Seq<char>, s: Seq<char>)
    ensures
        begins_with(pat + rest, pat),
        begins_with(s, pat) ==> s == pat + s.skip(pat.len() as int),
{
    assert((pat + rest).subrange(0, pat.len() as int) =~= pat);
    if begins_with(s, pat) {
        assert(s =~= s.subrange(0, pat.len() as int) + s.skip(pat.len() as int));
    }
}

/// A text is parted at the first place of a character: what stands before it, and what
/// stands behind it.
pub proof fn law_parting_is_at_the_first_place(before: Seq<char>, c: char, rest: Seq<char>)
    requires
        lacks_char(before, c),
    ensures
        split_once_at(before + seq![c] + rest, c) == Some((before, rest)),
        split_once_at(before, c) is None,
        split_at_char(before + seq![c] + rest, c) == seq![before] + split_at_char(rest, c),
        split_at_char(before, c) == seq![before],
{
    let s = before + seq![c] + rest;
    lemma_index_unique(s, c, before.len() as int);
    lemma_index_unique(before, c, before.len() as int);
    assert(s.take(before.len() as int) =~= before);
    assert(s.skip(before.len() as int + 1) =~= rest);
}

/// All of a character at the end of a text goes, and nothing else.
pub proof fn law_tail_goes(s: Seq<char>, c: char)
    ensures
        without_tail(s.push(c), c) == without_tail(s, c),
        s.len() > 0 && s.last() != c ==> without_tail(s, c) == s,
        without_tail(Seq::empty(), c).len() == 0,
{
    assert(s.push(c).drop_last() =~= s);
}

/// A number is written with its sign and is read back as it was; a further digit counts ten
/// times less than those before it.
pub proof fn law_number_is_read_back(n: int, m: nat, d: nat)
    requires
        d < 10,
        m > 0,
    ensures
        signed_decimal(int_text(n)) == Some(n),
        n >= 0 ==> int_text(n) == nat_text(n as nat),
        n < 0 ==> int_text(n) == seq!['-'] + nat_text((-n) as nat),
        nat_text(d) == seq![digit(d)],
        nat_text(10 * m + d) == nat_text(m).push(digit(d)),
        digit(0) == '0' && digit(1) == '1' && digit(9) == '9',
{
    if n >= 0 {
        law_decimal_is_read_back(n as nat);
        assert(is_digit(nat_text(n as nat)[0]));
    } else {
        law_decimal_is_read_back((-n) as nat);
        assert(int_text(n).skip(1) =~= nat_text((-n) as nat));
    }
}

/// Only a text of digits, one at least, is a number.
pub proof fn law_numbers_are_digits(s: Seq<char>)
    ensures
        s.len() == 0 ==> decimal(s) is None && signed_decimal(s) is None,
        (exists|i: int| 0 <= i < s.len() && !is_digit(#[trigger] s[i])) ==> decimal(s) is None,
        s.len() > 0 && all_digits(s) ==> decimal(s) == Some(digits_value(s)),
{
}

} // verus!

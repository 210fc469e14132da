//! Character-level utilities shared by the protocol parsers: conversions
//! between strings and character vectors, character classes, and the
//! decimal / hexadecimal number readers used by the wire formats.

use vstd::prelude::*;

verus! {

broadcast use vstd::string::next_postcondition, vstd::string::axiom_spec_iter;

/// Collect the characters of a string slice into a vector, in order.
pub fn str_to_chars(s: &str) -> (v: Vec<char>)
    ensures
        v@ == s@,
{
    let mut it = s.chars();
    let mut v: Vec<char> = Vec::new();
    loop
        invariant
            vstd::std_specs::iter::IteratorSpec::obeys_prophetic_iter_laws(&it),
            v@ + vstd::std_specs::iter::IteratorSpec::remaining(&it) == s@,
            vstd::std_specs::iter::IteratorSpec::decrease(&it) is Some,
        ensures
            v@ == s@,
        decreases vstd::std_specs::iter::IteratorSpec::decrease(&it)->0,
    {
        match it.next() {
            Some(c) => {
                v.push(c);
            }
            None => {
                proof {
                    assert(vstd::std_specs::iter::IteratorSpec::remaining(&it)
                        =~= Seq::<char>::empty());
                    assert(v@ + vstd::std_specs::iter::IteratorSpec::remaining(&it) =~= v@);
                }
                break;
            }
        }
    }
    v
}

/// Relies on `String::push`: appends exactly the given character.
#[verifier::external_body]
pub(crate) fn push_char(s: &mut String, c: char)
    ensures
        final(s)@ == old(s)@.push(c),
{
    s.push(c);
}

/// Build a string whose characters are exactly those of the vector.
pub fn chars_to_string(v: &Vec<char>) -> (s: String)
    ensures
        s@ == v@,
{
    let mut s = String::new();
    let mut i: usize = 0;
    while i < v.len()
        invariant
            i <= v.len(),
            s@ == v@.subrange(0, i as int),
        decreases v.len() - i,
    {
        push_char(&mut s, v[i]);
        proof {
            assert(s@ =~= v@.subrange(0, i + 1 as int));
        }
        i = i + 1;
    }
    proof {
        assert(s@ =~= v@);
    }
    s
}

/// Compare a character vector with a string slice, character by character.
#[verifier::loop_isolation(false)]
pub fn chars_eq_str(v: &Vec<char>, s: &str) -> (r: bool)
    ensures
        r == (v@ == s@),
{
    let w = str_to_chars(s);
    if v.len() != w.len() {
        proof {
            assert(v@.len() != s@.len());
        }
        return false;
    }
    let mut i: usize = 0;
    while i < v.len()
        invariant
            i <= v.len(),
            forall|j: int| 0 <= j < i ==> v@[j] == w@[j],
        decreases v.len() - i,
    {
        if v[i] != w[i] {
            proof {
                assert(v@[i as int] != s@[i as int]);
            }
            return false;
        }
        i = i + 1;
    }
    proof {
        assert(v@ =~= w@);
    }
    true
}

/// Compare two string slices, character by character.
pub fn str_eq(a: &str, b: &str) -> (r: bool)
    ensures
        r == (a@ == b@),
{
    let v = str_to_chars(a);
    chars_eq_str(&v, b)
}

/// The whitespace characters recognized by the header and document grammars.
pub open spec fn is_ws(c: char) -> bool {
    c == ' ' || c == '\t' || c == '\n' || c == '\r' || c == '\x0b' || c == '\x0c'
}

/// Executable test for `is_ws`.
pub fn ws_char(c: char) -> (r: bool)
    ensures
        r == is_ws(c),
{
    c == ' ' || c == '\t' || c == '\n' || c == '\r' || c == '\x0b' || c == '\x0c'
}

/// Decimal digit.
pub open spec fn is_digit(c: char) -> bool {
    '0' <= c && c <= '9'
}

/// Value of a decimal digit; zero for other characters.
pub open spec fn digit_val(c: char) -> int {
    if is_digit(c) {
        c as int - '0' as int
    } else {
        0
    }
}

/// Executable test for `is_digit`.
pub fn digit_char(c: char) -> (r: bool)
    ensures
        r == is_digit(c),
{
    '0' <= c && c <= '9'
}

/// Hexadecimal digit, either case.
pub open spec fn is_hex_digit(c: char) -> bool {
    is_digit(c) || ('a' <= c && c <= 'f') || ('A' <= c && c <= 'F')
}

/// Value of a hexadecimal digit; zero for other characters.
pub open spec fn hex_digit_val(c: char) -> int {
    if is_digit(c) {
        c as int - '0' as int
    } else if 'a' <= c && c <= 'f' {
        c as int - 'a' as int + 10
    } else if 'A' <= c && c <= 'F' {
        c as int - 'A' as int + 10
    } else {
        0
    }
}

/// Executable test for `is_hex_digit`.
pub fn hex_digit_char(c: char) -> (r: bool)
    ensures
        r == is_hex_digit(c),
{
    ('0' <= c && c <= '9') || ('a' <= c && c <= 'f') || ('A' <= c && c <= 'F')
}

/// ASCII lower-casing of one character; other characters are unchanged.
pub open spec fn lower_char(c: char) -> char {
    if 'A' <= c && c <= 'Z' {
        (((c as u8) + 32) as char)
    } else {
        c
    }
}

/// ASCII lower-casing of a character sequence.
pub open spec fn lower_chars(s: Seq<char>) -> Seq<char> {
    s.map_values(|c: char| lower_char(c))
}

/// Executable ASCII lower-casing of one character.
pub fn to_lower_char(c: char) -> (r: char)
    ensures
        r == lower_char(c),
{
    if 'A' <= c && c <= 'Z' {
        ((c as u8) + 32) as char
    } else {
        c
    }
}

/// Executable ASCII lower-casing of a character vector.
pub fn to_lower_chars(v: &Vec<char>) -> (r: Vec<char>)
    ensures
        r@ == lower_chars(v@),
{
    let mut out: Vec<char> = Vec::new();
    let mut i: usize = 0;
    while i < v.len()
        invariant
            i <= v.len(),
            out@ == lower_chars(v@.subrange(0, i as int)),
        decreases v.len() - i,
    {
        out.push(to_lower_char(v[i]));
        proof {
            assert(out@ =~= lower_chars(v@.subrange(0, i + 1 as int)));
        }
        i = i + 1;
    }
    proof {
        assert(v@.subrange(0, v@.len() as int) =~= v@);
    }
    out
}

/// Every character of the sequence is a decimal digit.
pub open spec fn all_digits(s: Seq<char>) -> bool {
    forall|i: int| 0 <= i < s.len() ==> is_digit(s[i])
}

/// Every character of the sequence is a hexadecimal digit.
pub open spec fn all_hex(s: Seq<char>) -> bool {
    forall|i: int| 0 <= i < s.len() ==> is_hex_digit(s[i])
}

/// Numeric value of a sequence of decimal digits (most significant first).
pub open spec fn dec_val(s: Seq<char>) -> int
    decreases s.len(),
{
    if s.len() == 0 {
        0
    } else {
        dec_val(s.drop_last()) * 10 + digit_val(s.last())
    }
}

/// Numeric value of a sequence of hexadecimal digits (most significant first).
pub open spec fn hex_val(s: Seq<char>) -> int
    decreases s.len(),
{
    if s.len() == 0 {
        0
    } else {
        hex_val(s.drop_last()) * 16 + digit_val_or_hex(s.last())
    }
}

/// Alias used by `hex_val` so the definition reads uniformly.
pub open spec fn digit_val_or_hex(c: char) -> int {
    hex_digit_val(c)
}

pub proof fn lemma_dec_val_nonneg(s: Seq<char>)
    ensures
        dec_val(s) >= 0,
    decreases s.len(),
{
    if s.len() > 0 {
        lemma_dec_val_nonneg(s.drop_last());
    }
}

pub proof fn lemma_hex_val_nonneg(s: Seq<char>)
    ensures
        hex_val(s) >= 0,
    decreases s.len(),
{
    if s.len() > 0 {
        lemma_hex_val_nonneg(s.drop_last());
    }
}

/// A digit prefix never exceeds the value of the whole digit run.
pub proof fn lemma_dec_val_prefix_le(s: Seq<char>, i: int)
    requires
        0 <= i <= s.len(),
    ensures
        dec_val(s.subrange(0, i)) <= dec_val(s),
    decreases s.len() - i,
{
    if i == s.len() {
        assert(s.subrange(0, i) =~= s);
    } else {
        lemma_dec_val_prefix_le(s, i + 1);
        let p = s.subrange(0, i + 1);
        assert(p.drop_last() =~= s.subrange(0, i));
        lemma_dec_val_nonneg(s.subrange(0, i));
        assert(dec_val(p) == dec_val(s.subrange(0, i)) * 10 + digit_val(p.last()));
        assert(digit_val(p.last()) >= 0);
        assert(dec_val(s.subrange(0, i)) * 10 >= dec_val(s.subrange(0, i))) by (nonlinear_arith)
            requires
                dec_val(s.subrange(0, i)) >= 0,
        ;
    }
}

pub proof fn lemma_hex_val_prefix_le(s: Seq<char>, i: int)
    requires
        0 <= i <= s.len(),
    ensures
        hex_val(s.subrange(0, i)) <= hex_val(s),
    decreases s.len() - i,
{
    if i == s.len() {
        assert(s.subrange(0, i) =~= s);
    } else {
        lemma_hex_val_prefix_le(s, i + 1);
        let p = s.subrange(0, i + 1);
        assert(p.drop_last() =~= s.subrange(0, i));
        lemma_hex_val_nonneg(s.subrange(0, i));
        assert(hex_val(p) == hex_val(s.subrange(0, i)) * 16 + hex_digit_val(p.last()));
        assert(hex_digit_val(p.last()) >= 0);
        assert(hex_val(s.subrange(0, i)) * 16 >= hex_val(s.subrange(0, i))) by (nonlinear_arith)
            requires
                hex_val(s.subrange(0, i)) >= 0,
        ;
    }
}

/// What `u8` parsing of decimal text yields: every character a digit, at
/// least one of them, and a value that fits; a single leading `+` is allowed.
pub open spec fn spec_parse_u8_dec(s: Seq<char>) -> Option<u8> {
    let body = if s.len() > 0 && s[0] == '+' {
        s.drop_first()
    } else {
        s
    };
    if body.len() > 0 && all_digits(body) && dec_val(body) <= 255 {
        Some(dec_val(body) as u8)
    } else {
        None
    }
}

/// What `u8` parsing of hexadecimal text yields, mirroring radix-16 parsing.
pub open spec fn spec_parse_u8_hex(s: Seq<char>) -> Option<u8> {
    let body = if s.len() > 0 && s[0] == '+' {
        s.drop_first()
    } else {
        s
    };
    if body.len() > 0 && all_hex(body) && hex_val(body) <= 255 {
        Some(hex_val(body) as u8)
    } else {
        None
    }
}

/// Parse a slice of characters as a decimal `u8`, as `u8::from_str` would.
#[verifier::loop_isolation(false)]
pub fn parse_u8_dec(v: &Vec<char>, from: usize, to: usize) -> (r: Option<u8>)
    requires
        from <= to <= v@.len(),
    ensures
        r == spec_parse_u8_dec(v@.subrange(from as int, to as int)),
{
    let ghost s = v@.subrange(from as int, to as int);
    let start: usize = if to > from && v[from] == '+' {
        from + 1
    } else {
        from
    };
    proof {
        let body = if s.len() > 0 && s[0] == '+' {
            s.drop_first()
        } else {
            s
        };
        assert(body =~= v@.subrange(start as int, to as int));
    }
    let ghost body = v@.subrange(start as int, to as int);
    if start == to {
        return None;
    }
    let mut acc: u32 = 0;
    let mut i: usize = start;
    while i < to
        invariant
            start <= i <= to <= v@.len(),
            body == v@.subrange(start as int, to as int),
            all_digits(v@.subrange(start as int, i as int)),
            acc == dec_val(v@.subrange(start as int, i as int)),
            acc <= 255,
        decreases to - i,
    {
        let c = v[i];
        if !digit_char(c) {
            proof {
                assert(body[i - start] == c);
                assert(!all_digits(body));
            }
            return None;
        }
        proof {
            assert(v@.subrange(start as int, i + 1 as int).drop_last() =~= v@.subrange(
                start as int,
                i as int,
            ));
            assert(v@.subrange(start as int, i + 1 as int).last() == c);
        }
        let d: u32 = (c as u32) - ('0' as u32);
        let next: u32 = acc * 10 + d;
        if next > 255 {
            proof {
                lemma_dec_val_prefix_le(body, i + 1 - start as int);
                assert(v@.subrange(start as int, i + 1 as int) =~= body.subrange(
                    0,
                    i + 1 - start as int,
                ));
                assert(dec_val(v@.subrange(start as int, i + 1 as int)) == next);
                assert(dec_val(body) > 255);
            }
            return None;
        }
        acc = next;
        i = i + 1;
    }
    proof {
        assert(v@.subrange(start as int, to as int) =~= body);
    }
    Some(acc as u8)
}

/// Parse a slice of characters as a hexadecimal `u8`, as radix-16 parsing would.
#[verifier::loop_isolation(false)]
pub fn parse_u8_hex(v: &Vec<char>, from: usize, to: usize) -> (r: Option<u8>)
    requires
        from <= to <= v@.len(),
    ensures
        r == spec_parse_u8_hex(v@.subrange(from as int, to as int)),
{
    let ghost s = v@.subrange(from as int, to as int);
    let start: usize = if to > from && v[from] == '+' {
        from + 1
    } else {
        from
    };
    proof {
        let body = if s.len() > 0 && s[0] == '+' {
            s.drop_first()
        } else {
            s
        };
        assert(body =~= v@.subrange(start as int, to as int));
    }
    let ghost body = v@.subrange(start as int, to as int);
    if start == to {
        return None;
    }
    let mut acc: u32 = 0;
    let mut i: usize = start;
    while i < to
        invariant
            start <= i <= to <= v@.len(),
            body == v@.subrange(start as int, to as int),
            all_hex(v@.subrange(start as int, i as int)),
            acc == hex_val(v@.subrange(start as int, i as int)),
            acc <= 255,
        decreases to - i,
    {
        let c = v[i];
        if !hex_digit_char(c) {
            proof {
                assert(body[i - start] == c);
                assert(!all_hex(body));
            }
            return None;
        }
        proof {
            assert(v@.subrange(start as int, i + 1 as int).drop_last() =~= v@.subrange(
                start as int,
                i as int,
            ));
            assert(v@.subrange(start as int, i + 1 as int).last() == c);
        }
        let d: u32 = if digit_char(c) {
            (c as u32) - ('0' as u32)
        } else if 'a' <= c && c <= 'f' {
            (c as u32) - ('a' as u32) + 10
        } else {
            (c as u32) - ('A' as u32) + 10
        };
        let next: u32 = acc * 16 + d;
        if next > 255 {
            proof {
                lemma_hex_val_prefix_le(body, i + 1 - start as int);
                assert(v@.subrange(start as int, i + 1 as int) =~= body.subrange(
                    0,
                    i + 1 - start as int,
                ));
                assert(hex_val(v@.subrange(start as int, i + 1 as int)) == next);
                assert(hex_val(body) > 255);
            }
            return None;
        }
        acc = next;
        i = i + 1;
    }
    proof {
        assert(v@.subrange(start as int, to as int) =~= body);
    }
    Some(acc as u8)
}

/// What `i32` parsing of decimal text yields: an optional sign, then at
/// least one digit, with a value inside the `i32` range.
pub open spec fn spec_parse_i32(s: Seq<char>) -> Option<i32> {
    let negative = s.len() > 0 && s[0] == '-';
    let body = if s.len() > 0 && (s[0] == '-' || s[0] == '+') {
        s.drop_first()
    } else {
        s
    };
    if body.len() > 0 && all_digits(body) {
        let mag = dec_val(body);
        if negative && -mag >= i32::MIN {
            Some((-mag) as i32)
        } else if !negative && mag <= i32::MAX {
            Some(mag as i32)
        } else {
            None
        }
    } else {
        None
    }
}

/// Parse a slice of characters as a decimal `i32`, as `i32::from_str` would.
#[verifier::loop_isolation(false)]
pub fn parse_i32(v: &Vec<char>, from: usize, to: usize) -> (r: Option<i32>)
    requires
        from <= to <= v@.len(),
    ensures
        r == spec_parse_i32(v@.subrange(from as int, to as int)),
{
    let ghost s = v@.subrange(from as int, to as int);
    let negative: bool = to > from && v[from] == '-';
    let start: usize = if to > from && (v[from] == '-' || v[from] == '+') {
        from + 1
    } else {
        from
    };
    proof {
        let body = if s.len() > 0 && (s[0] == '-' || s[0] == '+') {
            s.drop_first()
        } else {
            s
        };
        assert(body =~= v@.subrange(start as int, to as int));
    }
    let ghost body = v@.subrange(start as int, to as int);
    if start == to {
        return None;
    }
    let mut acc: u64 = 0;
    let mut i: usize = start;
    while i < to
        invariant
            start <= i <= to <= v@.len(),
            body == v@.subrange(start as int, to as int),
            all_digits(v@.subrange(start as int, i as int)),
            acc == dec_val(v@.subrange(start as int, i as int)),
            acc <= 0x8000_0000,
        decreases to - i,
    {
        let c = v[i];
        if !digit_char(c) {
            proof {
                assert(body[i - start] == c);
                assert(!all_digits(body));
            }
            return None;
        }
        proof {
            assert(v@.subrange(start as int, i + 1 as int).drop_last() =~= v@.subrange(
                start as int,
                i as int,
            ));
            assert(v@.subrange(start as int, i + 1 as int).last() == c);
        }
        let d: u64 = (c as u64) - ('0' as u64);
        let next: u64 = acc * 10 + d;
        if next > 0x8000_0000 {
            proof {
                lemma_dec_val_prefix_le(body, i + 1 - start as int);
                assert(v@.subrange(start as int, i + 1 as int) =~= body.subrange(
                    0,
                    i + 1 - start as int,
                ));
                assert(dec_val(v@.subrange(start as int, i + 1 as int)) == next);
                assert(dec_val(body) > 0x8000_0000);
            }
            return None;
        }
        acc = next;
        i = i + 1;
    }
    proof {
        assert(v@.subrange(start as int, to as int) =~= body);
    }
    if negative {
        if acc == 0x8000_0000 {
            Some(i32::MIN)
        } else {
            Some(-(acc as i32))
        }
    } else {
        if acc > 0x7fff_ffff {
            None
        } else {
            Some(acc as i32)
        }
    }
}

/// The sequences a vector of character vectors stands for.
pub open spec fn chunks_view(cs: Seq<Vec<char>>) -> Seq<Seq<char>> {
    cs.map_values(|c: Vec<char>| c@)
}

/// First position at or after `i` holding `sep`, or past the end.
pub open spec fn spec_find_sep(s: Seq<char>, i: int, sep: char) -> int
    decreases s.len() - i,
{
    if i >= s.len() {
        i
    } else if i < 0 {
        0
    } else if s[i] == sep {
        i
    } else {
        spec_find_sep(s, i + 1, sep)
    }
}

pub proof fn lemma_find_sep_bounds(s: Seq<char>, i: int, sep: char)
    requires
        0 <= i,
    ensures
        i <= spec_find_sep(s, i, sep),
        i <= s.len() ==> spec_find_sep(s, i, sep) <= s.len(),
    decreases s.len() - i,
{
    if i < s.len() && s[i] != sep {
        lemma_find_sep_bounds(s, i + 1, sep);
    }
}

/// The pieces of the text from position `i` on, split at the separator.
pub open spec fn spec_split_from(s: Seq<char>, i: int, sep: char) -> Seq<Seq<char>>
    decreases s.len() - i,
    via spec_split_from_decreases
{
    if !(0 <= i <= s.len()) {
        Seq::empty()
    } else {
        let j = spec_find_sep(s, i, sep);
        if j >= s.len() {
            seq![s.subrange(i, s.len() as int)]
        } else {
            seq![s.subrange(i, j)] + spec_split_from(s, j + 1, sep)
        }
    }
}

#[via_fn]
proof fn spec_split_from_decreases(s: Seq<char>, i: int, sep: char) {
    if 0 <= i <= s.len() {
        lemma_find_sep_bounds(s, i, sep);
    }
}

/// The pieces of the whole text, split at the separator; splitting never
/// yields fewer than one piece.
pub open spec fn spec_split(s: Seq<char>, sep: char) -> Seq<Seq<char>> {
    spec_split_from(s, 0, sep)
}

/// Split a character vector at a separator, as `str::split` would.
pub fn split_chars(v: &Vec<char>, sep: char) -> (r: Vec<Vec<char>>)
    ensures
        chunks_view(r@) == spec_split(v@, sep),
{
    let mut out: Vec<Vec<char>> = Vec::new();
    let mut i: usize = 0;
    proof {
        assert(chunks_view(out@) =~= Seq::<Seq<char>>::empty());
        assert(Seq::<Seq<char>>::empty() + spec_split_from(v@, 0, sep) =~= spec_split_from(
            v@,
            0,
            sep,
        ));
    }
    loop
        invariant
            i <= v@.len(),
            spec_split(v@, sep) == chunks_view(out@) + spec_split_from(v@, i as int, sep),
        decreases v@.len() - i,
    {
        let mut j: usize = i;
        while j < v.len() && v[j] != sep
            invariant
                i <= j <= v@.len(),
                spec_find_sep(v@, i as int, sep) == spec_find_sep(v@, j as int, sep),
            decreases v@.len() - j,
        {
            j = j + 1;
        }
        let mut chunk: Vec<char> = Vec::new();
        let mut k: usize = i;
        while k < j
            invariant
                i <= k <= j <= v@.len(),
                chunk@ == v@.subrange(i as int, k as int),
            decreases j - k,
        {
            chunk.push(v[k]);
            proof {
                assert(chunk@ =~= v@.subrange(i as int, k + 1 as int));
            }
            k = k + 1;
        }
        let ghost before = out@;
        out.push(chunk);
        proof {
            assert(chunks_view(out@) =~= chunks_view(before).push(v@.subrange(
                i as int,
                j as int,
            )));
        }
        if j >= v.len() {
            proof {
                assert(chunks_view(before) + seq![v@.subrange(i as int, v@.len() as int)]
                    =~= chunks_view(out@));
            }
            return out;
        }
        proof {
            assert(chunks_view(before) + (seq![v@.subrange(i as int, j as int)]
                + spec_split_from(v@, j + 1 as int, sep)) =~= chunks_view(out@)
                + spec_split_from(v@, j + 1 as int, sep));
        }
        i = j + 1;
    }
}

} // verus!

//! Parsing and handling of discovery messages: a broadcast search is
//! answered with free-form header-like text, from which a candidate
//! device's address, port and optional wake hardware address are read.

use vstd::prelude::*;
use crate::device::Device;
use crate::device::network::NetworkType;
use crate::device::power::PowerState;
use crate::session::SessionPort;
use crate::text::chars_to_string;
use crate::text::dec_val;
use crate::text::hex_digit_val;
use crate::text::is_digit;
use crate::text::is_ws;
use crate::text::parse_i32;
use crate::text::spec_parse_i32;
use crate::text::spec_parse_u8_hex;
use crate::text::parse_u8_hex;
use crate::text::str_to_chars;
use crate::xml::copy_range;

verus! {

/// Discovery response buffer length in bytes; responses are expected to
/// fit well within it, and one that exactly fills it is suspect.
pub const BUFLEN: usize = 512;

/// The multicast group and port the search message goes to.
pub const SSDP_ADDRESS: &'static str = "239.255.255.250:1900";

/// The fixed search message broadcast to discover devices.
pub fn discovery_search_message() -> (m: &'static str)
    ensures
        m@ == "M-SEARCH * HTTP/1.1\nHost: 239.255.255.250:1900\nMan: \"ssdp:discover\"\nST: roku:ecp\n "@,
{
    "M-SEARCH * HTTP/1.1\nHost: 239.255.255.250:1900\nMan: \"ssdp:discover\"\nST: roku:ecp\n "
}

/// What decoding bytes as UTF-8 text yields; a function of the bytes
/// alone.
pub uninterp spec fn utf8_chars(b: Seq<u8>) -> Option<Seq<char>>;

/// Relies on `str::from_utf8`: decodes the bytes as UTF-8 text, or
/// reports that they are not valid UTF-8.
#[verifier::external_body]
fn utf8_to_str(raw: &[u8]) -> (r: Option<&str>)
    ensures
        r matches Some(s) ==> utf8_chars(raw@) == Some(s@),
        r is None ==> utf8_chars(raw@) is None,
{
    match std::str::from_utf8(raw) {
        Ok(s) => Some(s),
        Err(_) => None,
    }
}

/// The product-identifying token starts at `i`: `roku`, each letter in
/// either case.
pub open spec fn roku_at(s: Seq<char>, i: int) -> bool {
    &&& 0 <= i
    &&& i + 4 <= s.len()
    &&& (s[i] == 'r' || s[i] == 'R')
    &&& (s[i + 1] == 'o' || s[i + 1] == 'O')
    &&& (s[i + 2] == 'k' || s[i + 2] == 'K')
    &&& (s[i + 3] == 'u' || s[i + 3] == 'U')
}

/// The text mentions the product somewhere.
pub open spec fn spec_contains_roku(s: Seq<char>) -> bool {
    exists|i: int| roku_at(s, i)
}

/// Scan for the product token.
pub fn contains_roku(v: &Vec<char>) -> (r: bool)
    ensures
        r == spec_contains_roku(v@),
{
    if v.len() < 4 {
        return false;
    }
    let mut i: usize = 0;
    while i <= v.len() - 4
        invariant
            v@.len() >= 4,
            i <= v@.len() - 3,
            forall|j: int| 0 <= j < i ==> !roku_at(v@, j),
        decreases v@.len() - i,
    {
        if (v[i] == 'r' || v[i] == 'R') && (v[i + 1] == 'o' || v[i + 1] == 'O') && (v[i + 2]
            == 'k' || v[i + 2] == 'K') && (v[i + 3] == 'u' || v[i + 3] == 'U') {
            proof {
                assert(roku_at(v@, i as int));
            }
            return true;
        }
        i = i + 1;
    }
    proof {
        assert(forall|j: int| roku_at(v@, j) ==> 0 <= j && j + 4 <= v@.len());
    }
    false
}

/// First position at or after `i` holding a non-digit.
pub open spec fn spec_digit_end(s: Seq<char>, i: int) -> int
    decreases s.len() - i,
{
    if i >= s.len() {
        i
    } else if i < 0 {
        0
    } else if !is_digit(s[i]) {
        i
    } else {
        spec_digit_end(s, i + 1)
    }
}

/// Scan to the end of a digit run.
fn digit_end(v: &Vec<char>, from: usize) -> (r: usize)
    requires
        from <= v@.len(),
    ensures
        r == spec_digit_end(v@, from as int),
        from <= r <= v@.len(),
{
    let mut j: usize = from;
    while j < v.len() && ('0' <= v[j] && v[j] <= '9')
        invariant
            from <= j <= v@.len(),
            spec_digit_end(v@, from as int) == spec_digit_end(v@, j as int),
        decreases v@.len() - j,
    {
        j = j + 1;
    }
    j
}

pub proof fn lemma_digit_end_digits(s: Seq<char>, i: int)
    requires
        0 <= i,
    ensures
        i <= spec_digit_end(s, i),
        i <= s.len() ==> spec_digit_end(s, i) <= s.len(),
        forall|k: int| i <= k < spec_digit_end(s, i) ==> is_digit(#[trigger] s[k]),
    decreases s.len() - i,
{
    if i < s.len() && is_digit(s[i]) {
        lemma_digit_end_digits(s, i + 1);
    }
}

/// End of the first address part in a location header starting at `i`.
pub open spec fn loc_d1(s: Seq<char>, i: int) -> int {
    spec_digit_end(s, i + 17)
}

/// End of the second address part.
pub open spec fn loc_d2(s: Seq<char>, i: int) -> int {
    spec_digit_end(s, loc_d1(s, i) + 1)
}

/// End of the third address part.
pub open spec fn loc_d3(s: Seq<char>, i: int) -> int {
    spec_digit_end(s, loc_d2(s, i) + 1)
}

/// End of the fourth address part.
pub open spec fn loc_d4(s: Seq<char>, i: int) -> int {
    spec_digit_end(s, loc_d3(s, i) + 1)
}

/// End of the port digit run.
pub open spec fn loc_q(s: Seq<char>, i: int) -> int {
    spec_digit_end(s, loc_d4(s, i) + 1)
}

/// A well-formed location header starts at `i`: the literal header
/// name, one whitespace character, the scheme, a dotted quad of one- to
/// three-digit parts, a colon, a port digit run, and at least one more
/// character on the same line (the last port digit can stand in for it).
pub open spec fn loc_viable_at(s: Seq<char>, i: int) -> bool {
    &&& 0 <= i
    &&& i + 17 <= s.len()
    &&& s.subrange(i, i + 9) == "LOCATION:"@
    &&& is_ws(s[i + 9])
    &&& s.subrange(i + 10, i + 17) == "http://"@
    &&& {
        let d1 = loc_d1(s, i);
        let d2 = loc_d2(s, i);
        let d3 = loc_d3(s, i);
        let d4 = loc_d4(s, i);
        let q = loc_q(s, i);
        &&& 1 <= d1 - (i + 17) <= 3 && d1 < s.len() && s[d1] == '.'
        &&& 1 <= d2 - (d1 + 1) <= 3 && d2 < s.len() && s[d2] == '.'
        &&& 1 <= d3 - (d2 + 1) <= 3 && d3 < s.len() && s[d3] == '.'
        &&& 1 <= d4 - (d3 + 1) <= 3 && d4 < s.len() && s[d4] == ':'
        &&& q > d4 + 1
        &&& ((q < s.len() && s[q] != '\n') || q - (d4 + 1) >= 2)
    }
}

/// The address encoded by a location header at `i`: the dotted quad,
/// exactly as written.
pub open spec fn loc_addr(s: Seq<char>, i: int) -> Seq<char> {
    s.subrange(i + 17, loc_d4(s, i))
}

/// The port digits the header yields: the whole run when another
/// same-line character follows it, else the run less its last digit.
pub open spec fn loc_port_digits(s: Seq<char>, i: int) -> Seq<char> {
    let d4 = loc_d4(s, i);
    let q = loc_q(s, i);
    if q < s.len() && s[q] != '\n' {
        s.subrange(d4 + 1, q)
    } else {
        s.subrange(d4 + 1, q - 1)
    }
}

/// The port encoded by a location header at `i`; a value too large for
/// the port type falls back to the default port 8060.
pub open spec fn loc_port(s: Seq<char>, i: int) -> i32 {
    let p = loc_port_digits(s, i);
    if p.len() > 0 && dec_val(p) <= i32::MAX {
        dec_val(p) as i32
    } else {
        8060
    }
}

/// The first well-formed location header at or after `i`, with what it
/// encodes.
pub open spec fn spec_loc_from(s: Seq<char>, i: int) -> Option<(Seq<char>, i32)>
    decreases s.len() - i,
{
    if !(0 <= i < s.len()) {
        None
    } else if loc_viable_at(s, i) {
        Some((loc_addr(s, i), loc_port(s, i)))
    } else {
        spec_loc_from(s, i + 1)
    }
}

/// What location parsing of the whole text yields.
pub open spec fn spec_location(s: Seq<char>) -> Option<(Seq<char>, i32)> {
    spec_loc_from(s, 0)
}

/// Does the literal text stand at position `i`?
fn match_at(v: &Vec<char>, i: usize, pat: &Vec<char>) -> (r: bool)
    requires
        i <= v@.len(),
    ensures
        r == (i + pat@.len() <= v@.len() && v@.subrange(i as int, i + pat@.len()) == pat@),
{
    let n = v.len();
    if pat.len() > n - i {
        return false;
    }
    let mut k: usize = 0;
    while k < pat.len()
        invariant
            k <= pat@.len(),
            i + pat@.len() <= v@.len(),
            v@.len() <= usize::MAX,
            forall|j: int| 0 <= j < k ==> v@[i + j] == pat@[j],
        decreases pat@.len() - k,
    {
        if v[i + k] != pat[k] {
            proof {
                assert(v@.subrange(i as int, i + pat@.len())[k as int] != pat@[k as int]);
            }
            return false;
        }
        k = k + 1;
    }
    proof {
        assert(v@.subrange(i as int, i + pat@.len()) =~= pat@);
    }
    true
}

/// Check a full location header at `i` and, if it is well formed, hand
/// back the positions its parts end at.
fn loc_check(v: &Vec<char>, i: usize, loc_pat: &Vec<char>, http_pat: &Vec<char>) -> (r: Option<
    (usize, usize),
>)
    requires
        i <= v@.len(),
        loc_pat@ == "LOCATION:"@,
        http_pat@ == "http://"@,
    ensures
        r is Some <==> loc_viable_at(v@, i as int),
        r matches Some(p) ==> p.0 == loc_d4(v@, i as int) && p.1 == loc_q(v@, i as int)
            && p.1 <= v@.len() && loc_viable_at(v@, i as int),
{
    proof {
        reveal_strlit("LOCATION:");
        reveal_strlit("http://");
    }
    if !match_at(v, i, loc_pat) {
        return None;
    }
    if v.len() - i < 17 {
        return None;
    }
    if !crate::text::ws_char(v[i + 9]) {
        return None;
    }
    if !match_at(v, i + 10, http_pat) {
        return None;
    }
    let d1 = digit_end(v, i + 17);
    if !(1 <= d1 - (i + 17) && d1 - (i + 17) <= 3 && d1 < v.len() && v[d1] == '.') {
        return None;
    }
    let d2 = digit_end(v, d1 + 1);
    if !(1 <= d2 - (d1 + 1) && d2 - (d1 + 1) <= 3 && d2 < v.len() && v[d2] == '.') {
        return None;
    }
    let d3 = digit_end(v, d2 + 1);
    if !(1 <= d3 - (d2 + 1) && d3 - (d2 + 1) <= 3 && d3 < v.len() && v[d3] == '.') {
        return None;
    }
    let d4 = digit_end(v, d3 + 1);
    if !(1 <= d4 - (d3 + 1) && d4 - (d3 + 1) <= 3 && d4 < v.len() && v[d4] == ':') {
        return None;
    }
    let q = digit_end(v, d4 + 1);
    if !(q > d4 + 1) {
        return None;
    }
    if (q < v.len() && v[q] != '\n') || q - (d4 + 1) >= 2 {
        Some((d4, q))
    } else {
        None
    }
}

/// Parse the address and port number from a location header in a
/// discovery response.
fn loc_scan(v: &Vec<char>) -> (r: Option<(String, i32)>)
    ensures
        match spec_location(v@) {
            None => r is None,
            Some((a, p)) => r matches Some(ap) && ap.0@ == a && ap.1 == p,
        },
{
    let loc_pat = str_to_chars("LOCATION:");
    let http_pat = str_to_chars("http://");
    let mut i: usize = 0;
    while i < v.len()
        invariant
            i <= v@.len(),
            loc_pat@ == "LOCATION:"@,
            http_pat@ == "http://"@,
            spec_location(v@) == spec_loc_from(v@, i as int),
        decreases v@.len() - i,
    {
        match loc_check(v, i, &loc_pat, &http_pat) {
            Some((d4, q)) => {
                let addr_chars = copy_range(v, i + 17, d4);
                let addr = chars_to_string(&addr_chars);
                let (pfrom, pto): (usize, usize) = if q < v.len() && v[q] != '\n' {
                    (d4 + 1, q)
                } else {
                    (d4 + 1, q - 1)
                };
                let port: i32 = match parse_i32(v, pfrom, pto) {
                    Some(n) => n,
                    None => 8060,
                };
                proof {
                    let s = v@;
                    let gi = i as int;
                    let p = loc_port_digits(s, gi);
                    assert(p == v@.subrange(pfrom as int, pto as int));
                    lemma_digit_end_digits(s, loc_d4(s, gi) + 1);
                    assert(forall|k: int|
                        0 <= k < p.len() ==> is_digit(#[trigger] p[k]) && p[k] == s[pfrom + k]);
                    assert(p.len() > 0);
                    assert(p[0] != '-' && p[0] != '+');
                    if dec_val(p) <= i32::MAX {
                        assert(spec_parse_i32(p) == Some((dec_val(p) as i32)));
                    } else {
                        crate::text::lemma_dec_val_nonneg(p);
                        assert(spec_parse_i32(p) is None);
                    }
                }
                return Some((addr, port));
            },
            None => {},
        }
        i = i + 1;
    }
    None
}

/// Parse the address and port number from a location header in a
/// discovery response.
pub fn parse_ssdp_location(message: &str) -> (r: Option<(String, i32)>)
    ensures
        match spec_location(message@) {
            None => r is None,
            Some((a, p)) => r matches Some(ap) && ap.0@ == a && ap.1 == p,
        },
{
    let v = str_to_chars(message);
    loc_scan(&v)
}

/// The wake-header name stands at `w`.
pub open spec fn wakeup_tag_at(s: Seq<char>, w: int) -> bool {
    0 <= w && w + 7 <= s.len() && s.subrange(w, w + 7) == "WAKEUP:"@
}

/// A hardware-address token fits at `m` on the same line as the wake
/// header at `w`: the literal `MAC`, one more character, then six
/// two-character groups separated by colons, everything up to the
/// groups staying on one line.
pub open spec fn mac_viable(s: Seq<char>, w: int, m: int) -> bool {
    &&& w + 7 <= m
    &&& m + 21 <= s.len()
    &&& (forall|k: int| w + 7 <= k < m ==> s[k] != '\n')
    &&& s.subrange(m, m + 3) == "MAC"@
    &&& s[m + 3] != '\n'
    &&& s[m + 4] != '\n' && s[m + 5] != '\n'
    &&& s[m + 6] == ':'
    &&& s[m + 7] != '\n' && s[m + 8] != '\n'
    &&& s[m + 9] == ':'
    &&& s[m + 10] != '\n' && s[m + 11] != '\n'
    &&& s[m + 12] == ':'
    &&& s[m + 13] != '\n' && s[m + 14] != '\n'
    &&& s[m + 15] == ':'
    &&& s[m + 16] != '\n' && s[m + 17] != '\n'
    &&& s[m + 18] == ':'
    &&& s[m + 19] != '\n' && s[m + 20] != '\n'
}

/// The two characters of group `g` of the token at `m`.
pub open spec fn mac_group(s: Seq<char>, m: int, g: int) -> Seq<char> {
    s.subrange(m + 4 + 3 * g, m + 6 + 3 * g)
}

/// The byte group `g` stands for: its two characters read as a
/// hexadecimal number, or zero when they are not one.
pub open spec fn mac_byte(s: Seq<char>, m: int, g: int) -> u8 {
    match spec_parse_u8_hex(mac_group(s, m, g)) {
        Some(b) => b,
        None => 0u8,
    }
}

/// The six bytes the token at `m` encodes.
pub open spec fn mac_bytes6(s: Seq<char>, m: int) -> Seq<u8> {
    Seq::new(6, |g: int| mac_byte(s, m, g))
}

/// The hindmost position at or below `m` where a token fits for the
/// wake header at `w` (the greedy choice).
pub open spec fn spec_mac_down(s: Seq<char>, w: int, m: int) -> Option<int>
    decreases m - w - 6,
{
    if m < w + 7 {
        None
    } else if mac_viable(s, w, m) {
        Some(m)
    } else {
        spec_mac_down(s, w, m - 1)
    }
}

/// The first wake header, at or after `i`, on whose line a token fits,
/// with the bytes of that line's hindmost token.
pub open spec fn spec_wakeup_from(s: Seq<char>, i: int) -> Option<Seq<u8>>
    decreases s.len() - i,
{
    if !(0 <= i && i + 7 <= s.len()) {
        None
    } else if wakeup_tag_at(s, i) {
        match spec_mac_down(s, i, s.len() - 21) {
            Some(m) => Some(mac_bytes6(s, m)),
            None => spec_wakeup_from(s, i + 1),
        }
    } else {
        spec_wakeup_from(s, i + 1)
    }
}

/// What wake-header parsing of the whole text yields.
pub open spec fn spec_wakeup(s: Seq<char>) -> Option<Seq<u8>> {
    spec_wakeup_from(s, 0)
}

/// Check a full hardware-address token at `m` for the header at `w`.
fn mac_check(v: &Vec<char>, w: usize, m: usize, mac_pat: &Vec<char>) -> (r: bool)
    requires
        w + 7 <= m <= v@.len(),
        mac_pat@ == "MAC"@,
    ensures
        r == mac_viable(v@, w as int, m as int),
{
    proof {
        reveal_strlit("MAC");
    }
    if v.len() - m < 21 {
        return false;
    }
    let mut k: usize = w + 7;
    while k < m
        invariant
            w + 7 <= k <= m <= v@.len(),
            forall|j: int| w + 7 <= j < k ==> v@[j] != '\n',
        decreases m - k,
    {
        if v[k] == '\n' {
            return false;
        }
        k = k + 1;
    }
    if !match_at(v, m, mac_pat) {
        return false;
    }
    v[m + 3] != '\n' && v[m + 4] != '\n' && v[m + 5] != '\n' && v[m + 6] == ':' && v[m + 7] != '\n'
        && v[m + 8] != '\n' && v[m + 9] == ':' && v[m + 10] != '\n' && v[m + 11] != '\n' && v[m
        + 12] == ':' && v[m + 13] != '\n' && v[m + 14] != '\n' && v[m + 15] == ':' && v[m + 16]
        != '\n' && v[m + 17] != '\n' && v[m + 18] == ':' && v[m + 19] != '\n' && v[m + 20] != '\n'
}

/// The byte one group of a found token stands for.
fn mac_group_byte(v: &Vec<char>, m: usize, g: usize) -> (b: u8)
    requires
        g < 6,
        m + 21 <= v@.len(),
    ensures
        b == mac_byte(v@, m as int, g as int),
{
    let n = v.len();
    proof {
        assert(m + 4 + 3 * g + 2 <= n);
    }
    let from = m + 4 + 3 * g;
    match parse_u8_hex(v, from, from + 2) {
        Some(x) => x,
        None => 0,
    }
}

/// Parse a hardware address from the wake header in a discovery
/// response: six colon-separated two-character groups after a `MAC`
/// token, each read as a hexadecimal byte, a group that is no number
/// counting as zero.
pub fn parse_ssdp_mac(message: &str) -> (r: Option<[u8; 6]>)
    ensures
        match spec_wakeup(message@) {
            None => r is None,
            Some(bs) => r matches Some(a) && a@ == bs,
        },
{
    let v = str_to_chars(message);
    mac_scan(&v)
}

/// Scan the text for the wake header and its hardware-address token.
fn mac_scan(v: &Vec<char>) -> (r: Option<[u8; 6]>)
    ensures
        match spec_wakeup(v@) {
            None => r is None,
            Some(bs) => r matches Some(a) && a@ == bs,
        },
{
    let wakeup_pat = str_to_chars("WAKEUP:");
    let mac_pat = str_to_chars("MAC");
    let mut i: usize = 0;
    proof {
        reveal_strlit("WAKEUP:");
    }
    while i < v.len() && v.len() - i >= 7
        invariant
            i <= v@.len(),
            wakeup_pat@ == "WAKEUP:"@,
            mac_pat@ == "MAC"@,
            "WAKEUP:"@.len() == 7,
            spec_wakeup(v@) == spec_wakeup_from(v@, i as int),
        decreases v@.len() - i,
    {
        if match_at(v, i, &wakeup_pat) {
            if v.len() >= 21 {
                let top = v.len() - 21;
                let mut m: usize = top;
                let mut found: bool = false;
                while m >= i + 7
                    invariant
                        i + 7 <= v@.len(),
                        v@.len() <= usize::MAX,
                        mac_pat@ == "MAC"@,
                        m <= top,
                        top == v@.len() - 21,
                        found ==> i + 7 <= m && mac_viable(v@, i as int, m as int)
                            && spec_mac_down(v@, i as int, top as int) == Some(m as int),
                        !found ==> spec_mac_down(v@, i as int, top as int) == spec_mac_down(
                            v@,
                            i as int,
                            m as int,
                        ),
                    ensures
                        !found ==> m < i + 7,
                    decreases m,
                {
                    if mac_check(v, i, m, &mac_pat) {
                        found = true;
                        break;
                    }
                    m = m - 1;
                }
                proof {
                    if !found {
                        assert(m < i + 7);
                        assert(spec_mac_down(v@, i as int, m as int) is None);
                    }
                }
                if found {
                    let b0 = mac_group_byte(v, m, 0);
                    let b1 = mac_group_byte(v, m, 1);
                    let b2 = mac_group_byte(v, m, 2);
                    let b3 = mac_group_byte(v, m, 3);
                    let b4 = mac_group_byte(v, m, 4);
                    let b5 = mac_group_byte(v, m, 5);
                    let arr: [u8; 6] = [b0, b1, b2, b3, b4, b5];
                    proof {
                        assert(arr@ =~= mac_bytes6(v@, m as int));
                    }
                    return Some(arr);
                }
            } else {
                proof {
                    assert(spec_mac_down(v@, i as int, v@.len() - 21) is None);
                }
            }
        }
        i = i + 1;
    }
    None
}

/// What one discovery datagram yields: the address text, the port, and
/// the optional wake hardware address. Bytes that are not UTF-8 count
/// as empty text, which matches nothing.
pub open spec fn spec_ssdp(b: Seq<u8>) -> Option<(Seq<char>, i32, Option<Seq<u8>>)> {
    let text = match utf8_chars(b) {
        None => Seq::<char>::empty(),
        Some(t) => t,
    };
    if !spec_contains_roku(text) {
        None
    } else {
        match spec_location(text) {
            None => None,
            Some((a, p)) => Some((a, p, spec_wakeup(text))),
        }
    }
}

/// The wake address a device reports, as bytes.
pub open spec fn mac_view(m: Option<[u8; 6]>) -> Option<Seq<u8>> {
    match m {
        None => None,
        Some(a) => Some(a@),
    }
}

/// A freshly discovered device carrying exactly what one datagram
/// yielded, everything else at its default.
pub open spec fn is_bare_device<S: SessionPort>(
    d: Device<S>,
    t: (Seq<char>, i32, Option<Seq<u8>>),
) -> bool {
    &&& d.connection is None
    &&& d.ipv4@ == t.0
    &&& d.port == t.1
    &&& d.name@ == Seq::<char>::empty()
    &&& d.network == NetworkType::Wireless
    &&& mac_view(d.mac_wol) == t.2
    &&& d.mac_wlan is None
    &&& d.mac_eth is None
    &&& d.power_state == PowerState::Unknown
}

/// Handler for one discovery response: a candidate device, or nothing
/// when the datagram does not describe one.
pub fn handle_ssdp_response<S: SessionPort>(raw: &[u8]) -> (r: Option<Device<S>>)
    ensures
        match spec_ssdp(raw@) {
            None => r is None,
            Some(t) => r matches Some(d) && is_bare_device(d, t),
        },
{
    let text: Vec<char> = match utf8_to_str(raw) {
        Some(s) => str_to_chars(s),
        None => Vec::new(),
    };
    if !contains_roku(&text) {
        return None;
    }
    match loc_scan(&text) {
        Some((ipv4, port)) => {
            let mut device: Device<S> = Device::new(ipv4.as_str(), port);
            device.mac_wol = mac_scan(&text);
            Some(device)
        },
        None => None,
    }
}

/// The candidates a sequence of datagrams yields, in arrival order;
/// duplicates are kept.
pub open spec fn spec_found(ds: Seq<Seq<u8>>) -> Seq<(Seq<char>, i32, Option<Seq<u8>>)>
    decreases ds.len(),
{
    if ds.len() == 0 {
        Seq::empty()
    } else {
        match spec_ssdp(ds.first()) {
            None => spec_found(ds.drop_first()),
            Some(t) => seq![t] + spec_found(ds.drop_first()),
        }
    }
}

/// The byte sequences a vector of datagrams stands for.
pub open spec fn datagrams_view(ds: Seq<Vec<u8>>) -> Seq<Seq<u8>> {
    ds.map_values(|d: Vec<u8>| d@)
}

/// Turn received datagrams into candidate devices, in arrival order,
/// silently skipping whatever does not parse; this is the pure
/// accumulation step of the discovery cycle.
pub fn devices_from_datagrams<S: SessionPort>(datagrams: &Vec<Vec<u8>>) -> (r: Vec<Device<S>>)
    ensures
        r@.len() == spec_found(datagrams_view(datagrams@)).len(),
        forall|j: int|
            0 <= j < r@.len() ==> is_bare_device(
                #[trigger] r@[j],
                spec_found(datagrams_view(datagrams@))[j],
            ),
{
    let ghost ds = datagrams_view(datagrams@);
    let mut out: Vec<Device<S>> = Vec::new();
    let mut k: usize = 0;
    proof {
        assert(ds.skip(0) =~= ds);
    }
    while k < datagrams.len()
        invariant
            k <= datagrams@.len(),
            ds == datagrams_view(datagrams@),
            out@.len() + spec_found(ds.skip(k as int)).len() == spec_found(ds).len(),
            forall|j: int|
                0 <= j < out@.len() ==> is_bare_device(#[trigger] out@[j], spec_found(ds)[j]),
            forall|j: int|
                0 <= j < spec_found(ds.skip(k as int)).len() ==> spec_found(ds.skip(k as int))[j]
                    == spec_found(ds)[out@.len() + j],
        decreases datagrams@.len() - k,
    {
        proof {
            assert(ds.skip(k as int).first() == datagrams@[k as int]@);
            assert(ds.skip(k as int).drop_first() =~= ds.skip(k + 1 as int));
        }
        let ghost rest0 = spec_found(ds.skip(k as int));
        let ghost rest1 = spec_found(ds.skip(k + 1 as int));
        match handle_ssdp_response(&datagrams[k]) {
            Some(device) => {
                out.push(device);
                proof {
                    let t = spec_ssdp(ds[k as int]).unwrap();
                    assert(rest0 == seq![t] + rest1);
                    assert(rest0[0] == t);
                    assert(forall|j: int| 0 <= j < rest1.len() ==> rest1[j] == rest0[j + 1]);
                }
            },
            None => {
                proof {
                    assert(rest0 == rest1);
                }
            },
        }
        k = k + 1;
    }
    proof {
        assert(ds.skip(ds.len() as int) =~= Seq::<Seq<u8>>::empty());
    }
    out
}

/// A text without the product token never yields a candidate, whatever
/// else it holds.
pub proof fn lemma_no_product_no_candidate(b: Seq<u8>, t: Seq<char>)
    requires
        utf8_chars(b) == Some(t) || (utf8_chars(b) is None && t == Seq::<char>::empty()),
        !spec_contains_roku(t),
    ensures
        spec_ssdp(b) is None,
{
}

/// The search for a location header passes over every position before
/// the first well-formed one.
proof fn lemma_loc_search(s: Seq<char>, a: int, i: int)
    requires
        0 <= a <= i < s.len(),
        forall|j: int| a <= j < i ==> !loc_viable_at(s, j),
    ensures
        spec_loc_from(s, a) == spec_loc_from(s, i),
    decreases i - a,
{
    if a < i {
        lemma_loc_search(s, a + 1, i);
    }
}

/// A discovery text whose first well-formed location header stands at
/// `i` yields exactly the address and port encoded there: the dotted
/// quad as written, and the value of the port digits, with the default
/// port standing in only for an overlarge value.
pub proof fn lemma_location_recovers(s: Seq<char>, i: int)
    requires
        loc_viable_at(s, i),
        forall|j: int| 0 <= j < i ==> !loc_viable_at(s, j),
    ensures
        spec_location(s) == Some((loc_addr(s, i), loc_port(s, i))),
        loc_addr(s, i) == s.subrange(i + 17, loc_d4(s, i)),
        dec_val(loc_port_digits(s, i)) <= i32::MAX ==> loc_port(s, i) == dec_val(
            loc_port_digits(s, i),
        ),
{
    assert(0 <= i < s.len());
    lemma_loc_search(s, 0, i);
    assert(spec_loc_from(s, i) == Some((loc_addr(s, i), loc_port(s, i))));
    crate::text::lemma_dec_val_nonneg(loc_port_digits(s, i));
    lemma_digit_end_digits(s, loc_d4(s, i) + 1);
    assert(loc_port_digits(s, i).len() > 0);
}

/// The search for a wake header passes over every position before the
/// first one whose line holds a token.
proof fn lemma_wakeup_search(s: Seq<char>, a: int, i: int)
    requires
        0 <= a <= i,
        i + 7 <= s.len(),
        forall|j: int|
            a <= j < i ==> !(wakeup_tag_at(s, j) && spec_mac_down(s, j, s.len() - 21) is Some),
    ensures
        spec_wakeup_from(s, a) == spec_wakeup_from(s, i),
    decreases i - a,
{
    if a < i {
        lemma_wakeup_search(s, a + 1, i);
    }
}

/// The hindmost token on the line is the one read.
proof fn lemma_mac_down(s: Seq<char>, w: int, top: int, m: int)
    requires
        w + 7 <= m <= top,
        mac_viable(s, w, m),
        forall|j: int| m < j <= top ==> !mac_viable(s, w, j),
    ensures
        spec_mac_down(s, w, top) == Some(m),
    decreases top - m,
{
    if m < top {
        assert(!mac_viable(s, w, top));
        lemma_mac_down(s, w, top - 1, m);
    }
}

/// A two-hex-digit group reads as the byte it spells, upper or lower
/// case alike.
pub proof fn lemma_hex_pair_value(s: Seq<char>, m: int, g: int)
    requires
        0 <= g < 6,
        0 <= m,
        m + 21 <= s.len(),
        crate::text::is_hex_digit(s[m + 4 + 3 * g]),
        crate::text::is_hex_digit(s[m + 5 + 3 * g]),
    ensures
        mac_byte(s, m, g) == 16 * hex_digit_val(s[m + 4 + 3 * g]) + hex_digit_val(
            s[m + 5 + 3 * g],
        ),
{
    let p = mac_group(s, m, g);
    assert(p.len() == 2);
    assert(p[0] == s[m + 4 + 3 * g]);
    assert(p[1] == s[m + 5 + 3 * g]);
    assert(p.drop_last() =~= seq![p[0]]);
    assert(seq![p[0]].drop_last() =~= Seq::<char>::empty());
    assert(seq![p[0]].last() == p[0]);
    assert(crate::text::hex_val(Seq::<char>::empty()) == 0);
    assert(crate::text::hex_val(seq![p[0]]) == hex_digit_val(p[0]));
    assert(p[0] != '+');
    assert(crate::text::hex_val(p) == 16 * hex_digit_val(p[0]) + hex_digit_val(p[1]));
    assert(crate::text::all_hex(p));
    assert(hex_digit_val(p[0]) <= 15 && hex_digit_val(p[1]) <= 15);
    assert(spec_parse_u8_hex(p) == Some((crate::text::hex_val(p) as u8)));
}

/// A discovery text whose first token-bearing wake header stands at `w`,
/// with the line's hindmost token at `m`, yields exactly the six bytes
/// the token's groups spell, whatever the case of their hex digits.
pub proof fn lemma_wakeup_recovers(s: Seq<char>, w: int, m: int)
    requires
        wakeup_tag_at(s, w),
        w + 7 <= m <= s.len() - 21,
        mac_viable(s, w, m),
        forall|j: int| m < j <= s.len() - 21 ==> !mac_viable(s, w, j),
        forall|j: int|
            0 <= j < w ==> !(wakeup_tag_at(s, j) && spec_mac_down(s, j, s.len() - 21) is Some),
        forall|g: int|
            0 <= g < 6 ==> crate::text::is_hex_digit(#[trigger] s[m + 4 + 3 * g])
                && crate::text::is_hex_digit(s[m + 5 + 3 * g]),
    ensures
        spec_wakeup(s) == Some(mac_bytes6(s, m)),
        forall|g: int|
            0 <= g < 6 ==> mac_bytes6(s, m)[g] == 16 * hex_digit_val(#[trigger] s[m + 4 + 3 * g])
                + hex_digit_val(s[m + 5 + 3 * g]),
{
    lemma_wakeup_search(s, 0, w);
    lemma_mac_down(s, w, s.len() - 21, m);
    assert forall|g: int| 0 <= g < 6 implies mac_bytes6(s, m)[g] == 16 * hex_digit_val(
        #[trigger] s[m + 4 + 3 * g],
    ) + hex_digit_val(s[m + 5 + 3 * g]) by {
        lemma_hex_pair_value(s, m, g);
    }
}

} // verus!

//! Streaming decoder for the tag/attribute/text response documents the
//! devices answer with.
//!
//! The grammar is deliberately small: a prolog or end tag or declaration
//! runs to the next `>`; a start tag carries a name and quoted attribute
//! values; a self-closing element produces no event; text between tags is
//! trimmed and must unescape through the five standard named entities.
//! One traversal produces start-tag and text events, and two reducers
//! fold the events into either a flat field mapping (device information)
//! or a record sequence (installed applications).

use vstd::prelude::*;
use crate::app::App;
use crate::app::GApp;
use crate::fields::FieldMap;
use crate::text::chars_eq_str;
use crate::text::chars_to_string;
use crate::text::is_ws;
use crate::text::parse_i32;
use crate::text::spec_parse_i32;
use crate::text::str_to_chars;
use crate::text::ws_char;

verus! {

/// A decoding failure.
#[derive(Clone, Copy, Debug, PartialEq, Eq, Structural)]
pub enum XmlError {
    /// The document text does not follow the tag grammar.
    Malformed,
    /// An application element carries fewer than the three expected
    /// attributes.
    MissingAttributes,
    /// An application identifier attribute is not a number.
    BadId,
}

/// One event of the traversal, as executable data.
#[derive(Clone, Debug)]
pub enum XmlEvent {
    /// A start tag with its attribute values in document order.
    Start { name: Vec<char>, attrs: Vec<Vec<char>> },
    /// A trimmed, still-escaped text node.
    Text { raw: Vec<char> },
}

/// One event of the traversal, as its mathematical value.
pub enum GEvent {
    Start { name: Seq<char>, attrs: Seq<Seq<char>> },
    Text { raw: Seq<char> },
}

impl View for XmlEvent {
    type V = GEvent;

    open spec fn view(&self) -> GEvent {
        match self {
            XmlEvent::Start { name, attrs } => GEvent::Start {
                name: name@,
                attrs: attrs@.map_values(|a: Vec<char>| a@),
            },
            XmlEvent::Text { raw } => GEvent::Text { raw: raw@ },
        }
    }
}

/// The events a vector of executable events stands for.
pub open spec fn evs_view(evs: Seq<XmlEvent>) -> Seq<GEvent> {
    evs.map_values(|e: XmlEvent| e@)
}

/// The attribute values a vector of executable values stands for.
pub open spec fn attrs_view(attrs: Seq<Vec<char>>) -> Seq<Seq<char>> {
    attrs.map_values(|a: Vec<char>| a@)
}

/// First position at or after `i` holding `c`; a position at or past the
/// end means the character does not occur.
pub open spec fn spec_find(s: Seq<char>, i: int, c: char) -> int
    decreases s.len() - i,
{
    if i >= s.len() {
        i
    } else if i < 0 {
        0
    } else if s[i] == c {
        i
    } else {
        spec_find(s, i + 1, c)
    }
}

/// First position at or after `i` holding a character that is not
/// whitespace.
pub open spec fn spec_skip_ws(s: Seq<char>, i: int) -> int
    decreases s.len() - i,
{
    if i >= s.len() {
        i
    } else if i < 0 {
        0
    } else if !is_ws(s[i]) {
        i
    } else {
        spec_skip_ws(s, i + 1)
    }
}

/// First position at or after `i` that ends a tag name: whitespace, `/`
/// or `>`.
pub open spec fn spec_scan_name(s: Seq<char>, i: int) -> int
    decreases s.len() - i,
{
    if i >= s.len() {
        i
    } else if i < 0 {
        0
    } else if is_ws(s[i]) || s[i] == '/' || s[i] == '>' {
        i
    } else {
        spec_scan_name(s, i + 1)
    }
}

pub proof fn lemma_find_bounds(s: Seq<char>, i: int, c: char)
    requires
        0 <= i,
    ensures
        i <= spec_find(s, i, c),
        i <= s.len() ==> spec_find(s, i, c) <= s.len(),
        spec_find(s, i, c) < s.len() ==> s[spec_find(s, i, c)] == c,
    decreases s.len() - i,
{
    if i < s.len() && s[i] != c {
        lemma_find_bounds(s, i + 1, c);
    }
}

pub proof fn lemma_skip_ws_bounds(s: Seq<char>, i: int)
    requires
        0 <= i,
    ensures
        i <= spec_skip_ws(s, i),
        i <= s.len() ==> spec_skip_ws(s, i) <= s.len(),
        spec_skip_ws(s, i) < s.len() ==> !is_ws(s[spec_skip_ws(s, i)]),
    decreases s.len() - i,
{
    if i < s.len() && is_ws(s[i]) {
        lemma_skip_ws_bounds(s, i + 1);
    }
}

pub proof fn lemma_scan_name_bounds(s: Seq<char>, i: int)
    requires
        0 <= i,
    ensures
        i <= spec_scan_name(s, i),
        i <= s.len() ==> spec_scan_name(s, i) <= s.len(),
    decreases s.len() - i,
{
    if i < s.len() && !(is_ws(s[i]) || s[i] == '/' || s[i] == '>') {
        lemma_scan_name_bounds(s, i + 1);
    }
}

/// Attribute-list parse from position `i`: the collected values, the
/// position after the closing `>`, and whether the element was
/// self-closing.
pub open spec fn spec_attrs(s: Seq<char>, i: int, acc: Seq<Seq<char>>) -> Option<
    (Seq<Seq<char>>, int, bool),
>
    decreases s.len() - i,
    via spec_attrs_decreases
{
    let j = spec_skip_ws(s, i);
    if j >= s.len() {
        None
    } else if s[j] == '>' {
        Some((acc, j + 1, false))
    } else if s[j] == '/' {
        if j + 1 < s.len() && s[j + 1] == '>' {
            Some((acc, j + 2, true))
        } else {
            None
        }
    } else {
        let e = spec_scan_attr_name(s, j);
        if e >= s.len() || s[e] != '=' {
            None
        } else if e + 1 >= s.len() || (s[e + 1] != '"' && s[e + 1] != '\'') {
            None
        } else {
            let q = s[e + 1];
            let v = spec_find(s, e + 2, q);
            if v >= s.len() {
                None
            } else {
                spec_attrs(s, v + 1, acc.push(s.subrange(e + 2, v)))
            }
        }
    }
}

/// First position at or after `i` that ends an attribute name: `=`,
/// whitespace, `/` or `>`.
pub open spec fn spec_scan_attr_name(s: Seq<char>, i: int) -> int
    decreases s.len() - i,
{
    if i >= s.len() {
        i
    } else if i < 0 {
        0
    } else if s[i] == '=' || is_ws(s[i]) || s[i] == '/' || s[i] == '>' {
        i
    } else {
        spec_scan_attr_name(s, i + 1)
    }
}

pub proof fn lemma_scan_attr_name_bounds(s: Seq<char>, i: int)
    requires
        0 <= i,
    ensures
        i <= spec_scan_attr_name(s, i),
        i <= s.len() ==> spec_scan_attr_name(s, i) <= s.len(),
    decreases s.len() - i,
{
    if i < s.len() && !(s[i] == '=' || is_ws(s[i]) || s[i] == '/' || s[i] == '>') {
        lemma_scan_attr_name_bounds(s, i + 1);
    }
}

#[via_fn]
proof fn spec_attrs_decreases(s: Seq<char>, i: int, acc: Seq<Seq<char>>) {
    let j = spec_skip_ws(s, i);
    if i < s.len() {
        if 0 <= i {
            lemma_skip_ws_bounds(s, i);
        }
        if 0 <= j && j < s.len() && s[j] != '>' && s[j] != '/' {
            let e = spec_scan_attr_name(s, j);
            lemma_scan_attr_name_bounds(s, j);
            if e < s.len() && s[e] == '=' && e + 1 < s.len() && (s[e + 1] == '"' || s[e + 1]
                == '\'') {
                lemma_find_bounds(s, e + 2, s[e + 1]);
            }
        }
    }
}

/// Everything the attribute parse can say about where it ends.
pub proof fn lemma_attrs_bounds(s: Seq<char>, i: int, acc: Seq<Seq<char>>)
    requires
        0 <= i,
    ensures
        spec_attrs(s, i, acc) matches Some((vals, j, sc)) ==> i < j <= s.len(),
    decreases s.len() - i,
{
    let j = spec_skip_ws(s, i);
    lemma_skip_ws_bounds(s, i);
    if j < s.len() && s[j] != '>' && s[j] != '/' {
        let e = spec_scan_attr_name(s, j);
        lemma_scan_attr_name_bounds(s, j);
        if !(e >= s.len() || s[e] != '=') && !(e + 1 >= s.len() || (s[e + 1] != '"' && s[e + 1]
            != '\'')) {
            let q = s[e + 1];
            let v = spec_find(s, e + 2, q);
            lemma_find_bounds(s, e + 2, q);
            if v < s.len() {
                lemma_attrs_bounds(s, v + 1, acc.push(s.subrange(e + 2, v)));
            }
        }
    }
}

/// Largest position at or below `i` preceded by a non-whitespace
/// character.
pub open spec fn spec_rskip_ws(s: Seq<char>, i: int) -> int
    decreases i,
{
    if i <= 0 {
        0
    } else if i > s.len() {
        s.len() as int
    } else if !is_ws(s[i - 1]) {
        i
    } else {
        spec_rskip_ws(s, i - 1)
    }
}

/// A text node with surrounding whitespace removed.
pub open spec fn spec_trim(s: Seq<char>) -> Seq<char> {
    let a = spec_skip_ws(s, 0);
    if a >= s.len() {
        Seq::empty()
    } else {
        s.subrange(a, spec_rskip_ws(s, s.len() as int))
    }
}

/// One lexical step at position `i`: the event it yields, if any, and
/// the position after it.
pub open spec fn spec_next(s: Seq<char>, i: int) -> Option<(Option<GEvent>, int)> {
    if !(0 <= i < s.len()) {
        None
    } else if s[i] == '<' {
        if i + 1 >= s.len() {
            None
        } else if s[i + 1] == '?' || s[i + 1] == '!' || s[i + 1] == '/' {
            let j = spec_find(s, i + 1, '>');
            if j >= s.len() {
                None
            } else {
                Some((None, j + 1))
            }
        } else {
            let e = spec_scan_name(s, i + 1);
            match spec_attrs(s, e, Seq::empty()) {
                None => None,
                Some((vals, j, selfclose)) => {
                    if selfclose {
                        Some((None, j))
                    } else {
                        Some(
                            (
                                Some(GEvent::Start { name: s.subrange(i + 1, e), attrs: vals }),
                                j,
                            ),
                        )
                    }
                },
            }
        }
    } else {
        let j = spec_find(s, i, '<');
        let t = spec_trim(s.subrange(i, j));
        if t.len() == 0 {
            Some((None, j))
        } else {
            Some((Some(GEvent::Text { raw: t }), j))
        }
    }
}

/// A lexical step always moves forward and stays inside the text.
pub proof fn lemma_next_advances(s: Seq<char>, i: int)
    requires
        0 <= i < s.len(),
    ensures
        spec_next(s, i) matches Some((oe, j)) ==> i < j <= s.len(),
{
    if s[i] == '<' {
        if i + 1 < s.len() {
            if s[i + 1] == '?' || s[i + 1] == '!' || s[i + 1] == '/' {
                lemma_find_bounds(s, i + 1, '>');
            } else {
                let e = spec_scan_name(s, i + 1);
                lemma_scan_name_bounds(s, i + 1);
                lemma_attrs_bounds(s, e, Seq::empty());
            }
        }
    } else {
        lemma_find_bounds(s, i, '<');
        assert(spec_find(s, i, '<') == spec_find(s, i + 1, '<'));
        lemma_find_bounds(s, i + 1, '<');
    }
}

/// The events of the whole remaining document from position `i`, or
/// nothing if the text leaves the grammar.
pub open spec fn spec_events(s: Seq<char>, i: int) -> Option<Seq<GEvent>>
    decreases s.len() - i,
    via spec_events_decreases
{
    if !(0 <= i < s.len()) {
        Some(Seq::empty())
    } else {
        match spec_next(s, i) {
            None => None,
            Some((oe, j)) => match spec_events(s, j) {
                None => None,
                Some(rest) => Some(
                    match oe {
                        None => rest,
                        Some(e) => seq![e] + rest,
                    },
                ),
            },
        }
    }
}

#[via_fn]
proof fn spec_events_decreases(s: Seq<char>, i: int) {
    if 0 <= i < s.len() {
        lemma_next_advances(s, i);
    }
}

/// Find a character, walking the vector.
pub(crate) fn find_char(v: &Vec<char>, from: usize, c: char) -> (r: usize)
    requires
        from <= v@.len(),
    ensures
        r == spec_find(v@, from as int, c),
        from <= r <= v@.len(),
{
    let mut j: usize = from;
    while j < v.len() && v[j] != c
        invariant
            from <= j <= v@.len(),
            spec_find(v@, from as int, c) == spec_find(v@, j as int, c),
        decreases v@.len() - j,
    {
        j = j + 1;
    }
    j
}

/// Find the end of a tag name, walking the vector.
fn scan_name(v: &Vec<char>, from: usize) -> (r: usize)
    requires
        from <= v@.len(),
    ensures
        r == spec_scan_name(v@, from as int),
        from <= r <= v@.len(),
{
    let mut j: usize = from;
    while j < v.len() && !(ws_char(v[j]) || v[j] == '/' || v[j] == '>')
        invariant
            from <= j <= v@.len(),
            spec_scan_name(v@, from as int) == spec_scan_name(v@, j as int),
        decreases v@.len() - j,
    {
        j = j + 1;
    }
    j
}

/// Find the end of an attribute name, walking the vector.
fn scan_attr_name(v: &Vec<char>, from: usize) -> (r: usize)
    requires
        from <= v@.len(),
    ensures
        r == spec_scan_attr_name(v@, from as int),
        from <= r <= v@.len(),
{
    let mut j: usize = from;
    while j < v.len() && !(v[j] == '=' || ws_char(v[j]) || v[j] == '/' || v[j] == '>')
        invariant
            from <= j <= v@.len(),
            spec_scan_attr_name(v@, from as int) == spec_scan_attr_name(v@, j as int),
        decreases v@.len() - j,
    {
        j = j + 1;
    }
    j
}

/// Skip whitespace, walking the vector.
fn skip_ws(v: &Vec<char>, from: usize) -> (r: usize)
    requires
        from <= v@.len(),
    ensures
        r == spec_skip_ws(v@, from as int),
        from <= r <= v@.len(),
    decreases v@.len() - from,
{
    let mut j: usize = from;
    while j < v.len() && ws_char(v[j])
        invariant
            from <= j <= v@.len(),
            spec_skip_ws(v@, from as int) == spec_skip_ws(v@, j as int),
        decreases v@.len() - j,
    {
        j = j + 1;
    }
    j
}

/// Copy a range of characters out of the vector.
pub(crate) fn copy_range(v: &Vec<char>, from: usize, to: usize) -> (r: Vec<char>)
    requires
        from <= to <= v@.len(),
    ensures
        r@ == v@.subrange(from as int, to as int),
{
    let mut out: Vec<char> = Vec::new();
    let mut j: usize = from;
    while j < to
        invariant
            from <= j <= to <= v@.len(),
            out@ == v@.subrange(from as int, j as int),
        decreases to - j,
    {
        out.push(v[j]);
        proof {
            assert(v@.subrange(from as int, j + 1 as int) =~= v@.subrange(from as int, j as int)
                .push(v@[j as int]));
        }
        j = j + 1;
    }
    out
}

/// Trim whitespace off both ends of a range; the result is the range of
/// the trimmed text.
pub(crate) fn trim_range(v: &Vec<char>, from: usize, to: usize) -> (r: (usize, usize))
    requires
        from <= to <= v@.len(),
    ensures
        from <= r.0 <= r.1 <= to,
        v@.subrange(r.0 as int, r.1 as int) == spec_trim(v@.subrange(from as int, to as int)),
{
    let ghost sub = v@.subrange(from as int, to as int);
    let mut a: usize = from;
    while a < to && ws_char(v[a])
        invariant
            from <= a <= to <= v@.len(),
            sub == v@.subrange(from as int, to as int),
            spec_skip_ws(sub, 0) == spec_skip_ws(sub, a - from),
        decreases to - a,
    {
        proof {
            assert(sub[a - from] == v@[a as int]);
        }
        a = a + 1;
    }
    if a == to {
        proof {
            assert(spec_skip_ws(sub, a - from) == a - from);
            assert(spec_trim(sub) =~= v@.subrange(a as int, a as int));
        }
        return (a, a);
    }
    proof {
        assert(sub[a - from] == v@[a as int]);
        assert(spec_skip_ws(sub, a - from) == a - from);
    }
    let mut b: usize = to;
    while b > a && ws_char(v[b - 1])
        invariant
            from <= a < to <= v@.len(),
            a < b <= to,
            sub == v@.subrange(from as int, to as int),
            !is_ws(v@[a as int]),
            spec_rskip_ws(sub, to - from) == spec_rskip_ws(sub, b - from),
        decreases b,
    {
        proof {
            assert(sub[b - 1 - from] == v@[b - 1 as int]);
        }
        b = b - 1;
    }
    proof {
        assert(b > a);
        assert(sub[b - 1 - from] == v@[b - 1 as int]);
        assert(spec_rskip_ws(sub, b - from) == b - from);
        assert(v@.subrange(a as int, b as int) =~= sub.subrange(a - from, b - from));
    }
    (a, b)
}

/// Parse an attribute list, collecting the values.
fn parse_attrs(v: &Vec<char>, start: usize, attrs: &mut Vec<Vec<char>>) -> (r: Option<
    (usize, bool),
>)
    requires
        start <= v@.len(),
    ensures
        match spec_attrs(v@, start as int, attrs_view(old(attrs)@)) {
            None => r is None,
            Some((vals, j, sc)) => r matches Some(p) && attrs_view(final(attrs)@) == vals && p.0
                == j && p.1 == sc,
        },
{
    let ghost full = spec_attrs(v@, start as int, attrs_view(old(attrs)@));
    let mut i: usize = start;
    loop
        invariant
            start <= i <= v@.len(),
            full == spec_attrs(v@, start as int, attrs_view(old(attrs)@)),
            spec_attrs(v@, i as int, attrs_view(attrs@)) == full,
        decreases v@.len() - i,
    {
        let j = skip_ws(v, i);
        if j >= v.len() {
            return None;
        }
        if v[j] == '>' {
            return Some((j + 1, false));
        }
        if v[j] == '/' {
            if j + 1 < v.len() && v[j + 1] == '>' {
                return Some((j + 2, true));
            }
            return None;
        }
        let e = scan_attr_name(v, j);
        if e >= v.len() {
            return None;
        }
        if v[e] != '=' {
            return None;
        }
        if e + 1 >= v.len() || (v[e + 1] != '"' && v[e + 1] != '\'') {
            return None;
        }
        let q = v[e + 1];
        let w = find_char(v, e + 2, q);
        if w >= v.len() {
            return None;
        }
        let val = copy_range(v, e + 2, w);
        let ghost before = attrs@;
        attrs.push(val);
        proof {
            assert(attrs_view(attrs@) =~= attrs_view(before).push(v@.subrange(e + 2, w as int)));
        }
        i = w + 1;
    }
}

/// One lexical step, walking the vector.
fn next_event(v: &Vec<char>, i: usize) -> (r: Option<(Option<XmlEvent>, usize)>)
    requires
        i < v@.len(),
    ensures
        match spec_next(v@, i as int) {
            None => r is None,
            Some((oe, j)) => r matches Some(p) && (match (p.0, oe) {
                (None, None) => true,
                (Some(ev), Some(ge)) => ev@ == ge,
                _ => false,
            }) && p.1 == j,
        },
{
    let n = v.len();
    if v[i] == '<' {
        if i + 1 >= n {
            return None;
        }
        let c1 = v[i + 1];
        if c1 == '?' || c1 == '!' || c1 == '/' {
            let j = find_char(v, i + 1, '>');
            if j >= n {
                return None;
            }
            return Some((None, j + 1));
        }
        let e = scan_name(v, i + 1);
        let name = copy_range(v, i + 1, e);
        let mut attrs: Vec<Vec<char>> = Vec::new();
        proof {
            assert(attrs_view(attrs@) =~= Seq::<Seq<char>>::empty());
        }
        match parse_attrs(v, e, &mut attrs) {
            None => None,
            Some((j, selfclose)) => {
                if selfclose {
                    Some((None, j))
                } else {
                    Some((Some(XmlEvent::Start { name, attrs }), j))
                }
            },
        }
    } else {
        let j = find_char(v, i, '<');
        let (a, b) = trim_range(v, i, j);
        if a >= b {
            Some((None, j))
        } else {
            Some((Some(XmlEvent::Text { raw: copy_range(v, a, b) }), j))
        }
    }
}

/// Tokenize a whole document into its events, or report that the text
/// leaves the grammar.
pub fn lex(v: &Vec<char>) -> (r: Option<Vec<XmlEvent>>)
    ensures
        match spec_events(v@, 0) {
            None => r is None,
            Some(evs) => r matches Some(out) && evs_view(out@) == evs,
        },
{
    let mut out: Vec<XmlEvent> = Vec::new();
    let mut i: usize = 0;
    proof {
        assert(evs_view(out@) =~= Seq::<GEvent>::empty());
    }
    while i < v.len()
        invariant
            i <= v@.len(),
            match spec_events(v@, i as int) {
                None => spec_events(v@, 0) is None,
                Some(rest) => spec_events(v@, 0) matches Some(all) && all == evs_view(out@)
                    + rest,
            },
        decreases v@.len() - i,
    {
        proof {
            lemma_next_advances(v@, i as int);
        }
        match next_event(v, i) {
            None => {
                return None;
            },
            Some((oe, j)) => {
                match oe {
                    None => {},
                    Some(ev) => {
                        let ghost before = out@;
                        out.push(ev);
                        proof {
                            assert(evs_view(out@) =~= evs_view(before).push(ev@));
                            if spec_events(v@, j as int) is Some {
                                let rest = spec_events(v@, j as int).unwrap();
                                assert(evs_view(before) + (seq![ev@] + rest) =~= evs_view(out@)
                                    + rest);
                            }
                        }
                    },
                }
                i = j;
            },
        }
    }
    proof {
        assert(evs_view(out@) + Seq::<GEvent>::empty() =~= evs_view(out@));
    }
    Some(out)
}

/// The replacement for one of the five standard named entities.
pub open spec fn spec_entity(name: Seq<char>) -> Option<char> {
    if name == "amp"@ {
        Some('&')
    } else if name == "lt"@ {
        Some('<')
    } else if name == "gt"@ {
        Some('>')
    } else if name == "quot"@ {
        Some('"')
    } else if name == "apos"@ {
        Some('\'')
    } else {
        None
    }
}

/// Entity-unescaped text from position `i`, or nothing when an escape
/// is unterminated or names no known entity.
pub open spec fn spec_unescape_from(s: Seq<char>, i: int) -> Option<Seq<char>>
    decreases s.len() - i,
    via spec_unescape_decreases
{
    if !(0 <= i < s.len()) {
        Some(Seq::empty())
    } else if s[i] == '&' {
        let j = spec_find(s, i, ';');
        if j >= s.len() {
            None
        } else {
            match spec_entity(s.subrange(i + 1, j)) {
                None => None,
                Some(c) => match spec_unescape_from(s, j + 1) {
                    None => None,
                    Some(rest) => Some(seq![c] + rest),
                },
            }
        }
    } else {
        match spec_unescape_from(s, i + 1) {
            None => None,
            Some(rest) => Some(seq![s[i]] + rest),
        }
    }
}

#[via_fn]
proof fn spec_unescape_decreases(s: Seq<char>, i: int) {
    if 0 <= i && i < s.len() && s[i] == '&' {
        lemma_find_bounds(s, i, ';');
    }
}

/// Unescaped text, or the empty text where unescaping fails, mirroring
/// the decoder's fallback for a bad escape.
pub open spec fn spec_unescape_or_empty(s: Seq<char>) -> Seq<char> {
    match spec_unescape_from(s, 0) {
        None => Seq::empty(),
        Some(u) => u,
    }
}

/// Text with every non-breaking-space character removed.
pub open spec fn strip_nbsp(s: Seq<char>) -> Seq<char>
    decreases s.len(),
{
    if s.len() == 0 {
        Seq::empty()
    } else if s.last() == '\u{a0}' {
        strip_nbsp(s.drop_last())
    } else {
        strip_nbsp(s.drop_last()).push(s.last())
    }
}

/// Entity-unescape a text node, walking the vector.
fn unescape(v: &Vec<char>) -> (r: Option<Vec<char>>)
    ensures
        match spec_unescape_from(v@, 0) {
            None => r is None,
            Some(u) => r matches Some(out) && out@ == u,
        },
{
    let mut out: Vec<char> = Vec::new();
    let mut i: usize = 0;
    proof {
        assert(out@ + Seq::<char>::empty() =~= out@);
    }
    while i < v.len()
        invariant
            i <= v@.len(),
            match spec_unescape_from(v@, i as int) {
                None => spec_unescape_from(v@, 0) is None,
                Some(rest) => spec_unescape_from(v@, 0) matches Some(u) && u == out@ + rest,
            },
        decreases v@.len() - i,
    {
        let c = v[i];
        if c == '&' {
            let j = find_char(v, i, ';');
            if j >= v.len() {
                return None;
            }
            proof {
                assert(spec_find(v@, i as int, ';') == spec_find(v@, i + 1 as int, ';'));
                lemma_find_bounds(v@, i + 1 as int, ';');
            }
            let name = copy_range(v, i + 1, j);
            let rep: char = if chars_eq_str(&name, "amp") {
                '&'
            } else if chars_eq_str(&name, "lt") {
                '<'
            } else if chars_eq_str(&name, "gt") {
                '>'
            } else if chars_eq_str(&name, "quot") {
                '"'
            } else if chars_eq_str(&name, "apos") {
                '\''
            } else {
                return None;
            };
            let ghost before = out@;
            out.push(rep);
            proof {
                if spec_unescape_from(v@, j + 1) is Some {
                    let rest = spec_unescape_from(v@, j + 1).unwrap();
                    assert(before + (seq![rep] + rest) =~= out@ + rest);
                }
            }
            i = j + 1;
        } else {
            let ghost before = out@;
            out.push(c);
            proof {
                if spec_unescape_from(v@, i + 1) is Some {
                    let rest = spec_unescape_from(v@, i + 1).unwrap();
                    assert(before + (seq![c] + rest) =~= out@ + rest);
                }
            }
            i = i + 1;
        }
    }
    proof {
        assert(out@ + Seq::<char>::empty() =~= out@);
    }
    Some(out)
}

/// The decoded value of a text node: unescaped, or empty on a bad
/// escape.
fn text_value(raw: &Vec<char>) -> (r: Vec<char>)
    ensures
        r@ == spec_unescape_or_empty(raw@),
{
    match unescape(raw) {
        Some(u) => u,
        None => Vec::new(),
    }
}

/// Remove non-breaking-space characters, walking the vector.
fn strip_nbsp_chars(v: &Vec<char>) -> (r: Vec<char>)
    ensures
        r@ == strip_nbsp(v@),
{
    let mut out: Vec<char> = Vec::new();
    let mut i: usize = 0;
    while i < v.len()
        invariant
            i <= v@.len(),
            out@ == strip_nbsp(v@.subrange(0, i as int)),
        decreases v@.len() - i,
    {
        proof {
            assert(v@.subrange(0, i + 1 as int).drop_last() =~= v@.subrange(0, i as int));
            assert(v@.subrange(0, i + 1 as int).last() == v@[i as int]);
        }
        if v[i] != '\u{a0}' {
            out.push(v[i]);
        }
        i = i + 1;
    }
    proof {
        assert(v@.subrange(0, v@.len() as int) =~= v@);
    }
    out
}

/// The flat-field fold: a start tag becomes the current tag, and each
/// text node is recorded under it, unless the tag is the document
/// prolog's or the device-information container's; a later record for a
/// tag wins.
pub open spec fn spec_flat(
    events: Seq<GEvent>,
    tag: Seq<char>,
    acc: Map<Seq<char>, Seq<char>>,
) -> Map<Seq<char>, Seq<char>>
    decreases events.len(),
{
    if events.len() == 0 {
        acc
    } else {
        match events.first() {
            GEvent::Start { name, attrs } => spec_flat(events.drop_first(), name, acc),
            GEvent::Text { raw } => {
                let acc2 = if tag != "?xml"@ && tag != "device-info"@ {
                    acc.insert(tag, spec_unescape_or_empty(raw))
                } else {
                    acc
                };
                spec_flat(events.drop_first(), tag, acc2)
            },
        }
    }
}

/// What flat-field decoding of a whole document yields.
pub open spec fn spec_decode_info(s: Seq<char>) -> Result<Map<Seq<char>, Seq<char>>, XmlError> {
    match spec_events(s, 0) {
        None => Err(XmlError::Malformed),
        Some(evs) => Ok(spec_flat(evs, Seq::empty(), Map::empty())),
    }
}

/// The record-sequence fold: each start tag outside the prolog and the
/// container opens a pending record from its first three attribute
/// values, and each following text node completes one record.
pub open spec fn spec_apps(
    events: Seq<GEvent>,
    pending: Option<(i32, Seq<char>, Seq<char>)>,
    acc: Seq<GApp>,
) -> Result<Seq<GApp>, XmlError>
    decreases events.len(),
{
    if events.len() == 0 {
        Ok(acc)
    } else {
        match events.first() {
            GEvent::Start { name, attrs } => {
                if name == "?xml"@ || name == "apps"@ {
                    spec_apps(events.drop_first(), pending, acc)
                } else if attrs.len() < 3 {
                    Err(XmlError::MissingAttributes)
                } else {
                    match spec_parse_i32(attrs[0]) {
                        None => Err(XmlError::BadId),
                        Some(id) => spec_apps(
                            events.drop_first(),
                            Some((id, attrs[1], attrs[2])),
                            acc,
                        ),
                    }
                }
            },
            GEvent::Text { raw } => match pending {
                None => spec_apps(events.drop_first(), pending, acc),
                Some((id, t, ver)) => spec_apps(
                    events.drop_first(),
                    pending,
                    acc.push(
                        GApp {
                            id: id as int,
                            apptype: t,
                            version: ver,
                            name: strip_nbsp(spec_unescape_or_empty(raw)),
                            icon: None,
                        },
                    ),
                ),
            },
        }
    }
}

/// What record-sequence decoding of a whole document yields.
pub open spec fn spec_decode_apps(s: Seq<char>) -> Result<Seq<GApp>, XmlError> {
    match spec_events(s, 0) {
        None => Err(XmlError::Malformed),
        Some(evs) => spec_apps(evs, None, Seq::empty()),
    }
}

/// The application records a vector of applications stands for.
pub open spec fn gapps_view(apps: Seq<App>) -> Seq<GApp> {
    apps.map_values(|a: App| a@)
}

/// Decode a device-information document into its field mapping.
pub fn decode_info(xml: &str) -> (r: Result<FieldMap, XmlError>)
    ensures
        r matches Ok(m) ==> spec_decode_info(xml@) == Ok::<Map<Seq<char>, Seq<char>>, XmlError>(
            m@,
        ),
        r matches Err(e) ==> spec_decode_info(xml@) == Err::<
            Map<Seq<char>, Seq<char>>,
            XmlError,
        >(e),
{
    let v = str_to_chars(xml);
    let events = match lex(&v) {
        None => {
            return Err(XmlError::Malformed);
        },
        Some(evs) => evs,
    };
    let ghost gevs = evs_view(events@);
    let mut map = FieldMap::new();
    let mut tag: Vec<char> = Vec::new();
    let mut k: usize = 0;
    proof {
        assert(gevs.skip(0) =~= gevs);
    }
    while k < events.len()
        invariant
            k <= events@.len(),
            gevs == evs_view(events@),
            spec_flat(gevs, Seq::empty(), Map::empty()) == spec_flat(
                gevs.skip(k as int),
                tag@,
                map@,
            ),
        decreases events@.len() - k,
    {
        proof {
            assert(gevs.skip(k as int).first() == events@[k as int]@);
            assert(gevs.skip(k as int).drop_first() =~= gevs.skip(k + 1 as int));
        }
        match &events[k] {
            XmlEvent::Start { name, attrs: _ } => {
                tag = copy_range(name, 0, name.len());
                proof {
                    assert(tag@ =~= name@);
                }
            },
            XmlEvent::Text { raw } => {
                if !(chars_eq_str(&tag, "?xml") || chars_eq_str(&tag, "device-info")) {
                    let key = chars_to_string(&tag);
                    let val_chars = text_value(raw);
                    let value = chars_to_string(&val_chars);
                    map.insert(key, value);
                }
            },
        }
        k = k + 1;
    }
    proof {
        assert(gevs.skip(gevs.len() as int) =~= Seq::<GEvent>::empty());
    }
    Ok(map)
}

/// Decode an installed-applications document into its records, in
/// document order.
pub fn decode_apps(xml: &str) -> (r: Result<Vec<App>, XmlError>)
    ensures
        r matches Ok(v) ==> spec_decode_apps(xml@) == Ok::<Seq<GApp>, XmlError>(gapps_view(v@)),
        r matches Err(e) ==> spec_decode_apps(xml@) == Err::<Seq<GApp>, XmlError>(e),
{
    let v = str_to_chars(xml);
    let events = match lex(&v) {
        None => {
            return Err(XmlError::Malformed);
        },
        Some(evs) => evs,
    };
    let ghost gevs = evs_view(events@);
    let mut out: Vec<App> = Vec::new();
    let mut have_pending: bool = false;
    let mut pid: i32 = 0;
    let mut ptype: String = String::new();
    let mut pver: String = String::new();
    let mut k: usize = 0;
    proof {
        assert(gevs.skip(0) =~= gevs);
        assert(gapps_view(out@) =~= Seq::<GApp>::empty());
    }
    while k < events.len()
        invariant
            k <= events@.len(),
            gevs == evs_view(events@),
            spec_events(xml@, 0) == Some(gevs),
            spec_apps(gevs, None, Seq::empty()) == spec_apps(
                gevs.skip(k as int),
                if have_pending {
                    Some((pid, ptype@, pver@))
                } else {
                    None
                },
                gapps_view(out@),
            ),
        decreases events@.len() - k,
    {
        proof {
            assert(gevs.skip(k as int).first() == events@[k as int]@);
            assert(gevs.skip(k as int).drop_first() =~= gevs.skip(k + 1 as int));
        }
        match &events[k] {
            XmlEvent::Start { name, attrs } => {
                if !(chars_eq_str(name, "?xml") || chars_eq_str(name, "apps")) {
                    if attrs.len() < 3 {
                        return Err(XmlError::MissingAttributes);
                    }
                    proof {
                        assert(attrs@[0]@.subrange(0, attrs@[0]@.len() as int) =~= attrs@[0]@);
                        assert(attrs_view(attrs@)[0] == attrs@[0]@);
                        assert(attrs_view(attrs@)[1] == attrs@[1]@);
                        assert(attrs_view(attrs@)[2] == attrs@[2]@);
                    }
                    let id = match parse_i32(&attrs[0], 0, attrs[0].len()) {
                        None => {
                            return Err(XmlError::BadId);
                        },
                        Some(n) => n,
                    };
                    pid = id;
                    ptype = chars_to_string(&attrs[1]);
                    pver = chars_to_string(&attrs[2]);
                    have_pending = true;
                }
            },
            XmlEvent::Text { raw } => {
                if have_pending {
                    let val_chars = text_value(raw);
                    let cleaned = strip_nbsp_chars(&val_chars);
                    let app = App {
                        id: pid,
                        apptype: ptype.clone(),
                        version: pver.clone(),
                        name: chars_to_string(&cleaned),
                        icon: None,
                    };
                    let ghost before = out@;
                    out.push(app);
                    proof {
                        assert(gapps_view(out@) =~= gapps_view(before).push(out@.last()@));
                    }
                }
            },
        }
        k = k + 1;
    }
    proof {
        assert(gevs.skip(gevs.len() as int) =~= Seq::<GEvent>::empty());
    }
    Ok(out)
}

/// A repeated tag keeps the last occurrence: appending one more
/// start-tag/text pair for a tag overrides whatever any earlier events
/// recorded under it.
pub proof fn lemma_flat_last_wins(
    events: Seq<GEvent>,
    t0: Seq<char>,
    acc: Map<Seq<char>, Seq<char>>,
    tag: Seq<char>,
    attrs: Seq<Seq<char>>,
    raw: Seq<char>,
)
    requires
        tag != "?xml"@,
        tag != "device-info"@,
    ensures
        spec_flat(
            events + seq![GEvent::Start { name: tag, attrs }, GEvent::Text { raw }],
            t0,
            acc,
        ) == spec_flat(events, t0, acc).insert(tag, spec_unescape_or_empty(raw)),
    decreases events.len(),
{
    let sfx = seq![GEvent::Start { name: tag, attrs }, GEvent::Text { raw }];
    if events.len() == 0 {
        assert(events + sfx =~= sfx);
        assert(sfx.first() == GEvent::Start { name: tag, attrs });
        let mid = sfx.drop_first();
        assert(spec_flat(events + sfx, t0, acc) == spec_flat(mid, tag, acc));
        assert(mid.len() == 1);
        assert(mid.first() == GEvent::Text { raw });
        assert(spec_flat(mid, tag, acc) == spec_flat(
            mid.drop_first(),
            tag,
            acc.insert(tag, spec_unescape_or_empty(raw)),
        ));
        assert(mid.drop_first().len() == 0);
        assert(spec_flat(events, t0, acc) == acc);
    } else {
        assert((events + sfx).len() > 0);
        assert((events + sfx).first() == events.first());
        assert((events + sfx).drop_first() =~= events.drop_first() + sfx);
        match events.first() {
            GEvent::Start { name, attrs: a2 } => {
                lemma_flat_last_wins(events.drop_first(), name, acc, tag, attrs, raw);
                assert(spec_flat(events + sfx, t0, acc) == spec_flat(
                    events.drop_first() + sfx,
                    name,
                    acc,
                ));
                assert(spec_flat(events, t0, acc) == spec_flat(events.drop_first(), name, acc));
            },
            GEvent::Text { raw: r2 } => {
                let acc2 = if t0 != "?xml"@ && t0 != "device-info"@ {
                    acc.insert(t0, spec_unescape_or_empty(r2))
                } else {
                    acc
                };
                lemma_flat_last_wins(events.drop_first(), t0, acc2, tag, attrs, raw);
                assert(spec_flat(events + sfx, t0, acc) == spec_flat(
                    events.drop_first() + sfx,
                    t0,
                    acc2,
                ));
                assert(spec_flat(events, t0, acc) == spec_flat(events.drop_first(), t0, acc2));
            },
        }
    }
}

/// One well-formed application element of a record-sequence document:
/// its tag, its attribute values, and its text.
pub struct GItem {
    pub tag: Seq<char>,
    pub attrs: Seq<Seq<char>>,
    pub text: Seq<char>,
}

/// A well-formed application element: not a container tag, at least
/// three attributes, and a numeric identifier.
pub open spec fn item_wf(it: GItem) -> bool {
    it.tag != "?xml"@ && it.tag != "apps"@ && it.attrs.len() >= 3 && spec_parse_i32(
        it.attrs[0],
    ) is Some
}

/// The two events one element contributes.
pub open spec fn items_events(items: Seq<GItem>) -> Seq<GEvent>
    decreases items.len(),
{
    if items.len() == 0 {
        Seq::empty()
    } else {
        seq![
            GEvent::Start { name: items.first().tag, attrs: items.first().attrs },
            GEvent::Text { raw: items.first().text },
        ] + items_events(items.drop_first())
    }
}

/// The record one element decodes to.
pub open spec fn item_record(it: GItem) -> GApp {
    GApp {
        id: spec_parse_i32(it.attrs[0]).unwrap() as int,
        apptype: it.attrs[1],
        version: it.attrs[2],
        name: strip_nbsp(spec_unescape_or_empty(it.text)),
        icon: None,
    }
}

/// The records of a sequence of elements, in document order.
pub open spec fn items_records(items: Seq<GItem>) -> Seq<GApp>
    decreases items.len(),
{
    if items.len() == 0 {
        Seq::empty()
    } else {
        seq![item_record(items.first())] + items_records(items.drop_first())
    }
}

/// A document of well-formed application elements decodes to exactly one
/// record per element, in document order, with identifier, type and
/// version taken from the corresponding attributes.
pub proof fn lemma_apps_decode(
    items: Seq<GItem>,
    pending: Option<(i32, Seq<char>, Seq<char>)>,
    acc: Seq<GApp>,
)
    requires
        forall|i: int| 0 <= i < items.len() ==> item_wf(#[trigger] items[i]),
    ensures
        spec_apps(items_events(items), pending, acc) == Ok::<Seq<GApp>, XmlError>(
            acc + items_records(items),
        ),
    decreases items.len(),
{
    if items.len() == 0 {
        assert(acc + items_records(items) =~= acc);
    } else {
        let it = items.first();
        assert(item_wf(items[0]));
        let id = spec_parse_i32(it.attrs[0]).unwrap();
        let evs = items_events(items);
        let tail = items_events(items.drop_first());
        let mid = seq![GEvent::Text { raw: it.text }] + tail;
        assert(evs.first() == GEvent::Start { name: it.tag, attrs: it.attrs });
        assert(evs.drop_first() =~= mid);
        assert(spec_apps(evs, pending, acc) == spec_apps(mid, Some((id, it.attrs[1], it.attrs[2])), acc));
        assert(mid.first() == GEvent::Text { raw: it.text });
        assert(mid.drop_first() =~= tail);
        assert(spec_apps(mid, Some((id, it.attrs[1], it.attrs[2])), acc) == spec_apps(
            tail,
            Some((id, it.attrs[1], it.attrs[2])),
            acc.push(item_record(it)),
        ));
        assert(forall|i: int|
            0 <= i < items.drop_first().len() ==> item_wf(#[trigger] items.drop_first()[i]));
        lemma_apps_decode(
            items.drop_first(),
            Some((id, it.attrs[1], it.attrs[2])),
            acc.push(item_record(it)),
        );
        assert(acc.push(item_record(it)) + items_records(items.drop_first()) =~= acc
            + items_records(items));
    }
}

/// A container start tag contributes nothing to the record fold.
pub proof fn lemma_apps_container(
    name: Seq<char>,
    attrs: Seq<Seq<char>>,
    rest: Seq<GEvent>,
    pending: Option<(i32, Seq<char>, Seq<char>)>,
    acc: Seq<GApp>,
)
    requires
        name == "?xml"@ || name == "apps"@,
    ensures
        spec_apps(seq![GEvent::Start { name, attrs }] + rest, pending, acc) == spec_apps(
            rest,
            pending,
            acc,
        ),
{
    let evs = seq![GEvent::Start { name, attrs }] + rest;
    assert(evs.first() == GEvent::Start { name, attrs });
    assert(evs.drop_first() =~= rest);
}

} // verus!

//! Loading a key/value configuration from text: one `key = value` pair
//! per line, blank lines and `#` comment lines skipped.

use vstd::prelude::*;
use crate::fields::FieldMap;
use crate::text::chars_to_string;
use crate::text::chunks_view;
use crate::text::split_chars;
use crate::text::spec_split;
use crate::text::str_to_chars;
use crate::xml::copy_range;
use crate::xml::find_char;
use crate::xml::spec_find;
use crate::xml::spec_trim;
use crate::xml::trim_range;

verus! {

/// Whether a trimmed line carries a `key = value` pair.
pub open spec fn spec_line_has_pair(t: Seq<char>) -> bool {
    t.len() > 0 && t[0] != '#' && spec_find(t, 0, '=') < t.len()
}

/// The pair a line carries: the trimmed text on either side of the
/// first `=`.
pub open spec fn spec_line_pair(t: Seq<char>) -> (Seq<char>, Seq<char>) {
    let e = spec_find(t, 0, '=');
    (spec_trim(t.subrange(0, e)), spec_trim(t.subrange(e + 1, t.len() as int)))
}

/// The mapping the lines build up, later lines shadowing earlier ones.
pub open spec fn spec_config_lines(
    lines: Seq<Seq<char>>,
    acc: Map<Seq<char>, Seq<char>>,
) -> Map<Seq<char>, Seq<char>>
    decreases lines.len(),
{
    if lines.len() == 0 {
        acc
    } else {
        let t = spec_trim(lines.first());
        let acc2 = if spec_line_has_pair(t) {
            acc.insert(spec_line_pair(t).0, spec_line_pair(t).1)
        } else {
            acc
        };
        spec_config_lines(lines.drop_first(), acc2)
    }
}

/// What loading a configuration text yields.
pub open spec fn spec_config(s: Seq<char>) -> Map<Seq<char>, Seq<char>> {
    spec_config_lines(spec_split(s, '\n'), Map::empty())
}

/// Load a key/value configuration from its text: each line holding `=`
/// records the trimmed key and value, blank and `#` comment lines are
/// skipped, and a later line for a key wins.
pub fn load_from_file(contents: &str) -> (r: FieldMap)
    ensures
        r@ == spec_config(contents@),
{
    let v = str_to_chars(contents);
    let lines = split_chars(&v, '\n');
    let mut map = FieldMap::new();
    let mut i: usize = 0;
    proof {
        assert(chunks_view(lines@).skip(0) =~= chunks_view(lines@));
    }
    while i < lines.len()
        invariant
            i <= lines@.len(),
            chunks_view(lines@) == spec_split(v@, '\n'),
            v@ == contents@,
            spec_config(contents@) == spec_config_lines(
                chunks_view(lines@).skip(i as int),
                map@,
            ),
        decreases lines@.len() - i,
    {
        proof {
            assert(chunks_view(lines@).skip(i as int).first() == lines@[i as int]@);
            assert(chunks_view(lines@).skip(i as int).drop_first() =~= chunks_view(lines@).skip(
                i + 1 as int,
            ));
        }
        let line = &lines[i];
        let (a, b) = trim_range(line, 0, line.len());
        let t = copy_range(line, a, b);
        proof {
            assert(line@.subrange(0, line@.len() as int) =~= line@);
        }
        if t.len() > 0 && t[0] != '#' {
            let e = find_char(&t, 0, '=');
            if e < t.len() {
                let (ka, kb) = trim_range(&t, 0, e);
                let key_chars = copy_range(&t, ka, kb);
                let (va, vb) = trim_range(&t, e + 1, t.len());
                let val_chars = copy_range(&t, va, vb);
                let key = chars_to_string(&key_chars);
                let value = chars_to_string(&val_chars);
                proof {
                    assert(t@.subrange(e + 1 as int, t@.len() as int) == t@.subrange(
                        e + 1 as int,
                        t@.len() as int,
                    ));
                }
                map.insert(key, value);
            }
        }
        i = i + 1;
    }
    proof {
        assert(chunks_view(lines@).skip(chunks_view(lines@).len() as int) =~= Seq::<
            Seq<char>,
        >::empty());
        assert(lines@.len() == chunks_view(lines@).len());
    }
    map
}

} // verus!

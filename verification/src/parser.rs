//! Character-level scanners for the EXPRESS lexical grammar.
//!
//! Each scanner consumes the longest matching prefix of its input and
//! returns the remaining input alongside the matched value, or nothing
//! when the input does not start with a match.

use vstd::prelude::*;

verus! {

/// `letter = a | b | ... | z`
pub open spec fn is_letter(c: char) -> bool {
    'a' <= c && c <= 'z'
}

/// `digit = 0 | 1 | ... | 9`
pub open spec fn is_digit(c: char) -> bool {
    '0' <= c && c <= '9'
}

/// A character that may continue a simple identifier.
pub open spec fn is_id_char(c: char) -> bool {
    is_letter(c) || is_digit(c) || c == '_'
}

/// The index right after the identifier characters that follow position
/// `i`.
pub open spec fn id_end(s: Seq<char>, i: int) -> int
    decreases s.len() - i,
{
    if i < 0 || i >= s.len() {
        i
    } else if is_id_char(s[i]) {
        id_end(s, i + 1)
    } else {
        i
    }
}

/// Scans one lower-case letter off the front of `input`.
pub fn letter(input: &str) -> (r: Option<(&str, char)>)
    ensures
        match r {
            Option::Some(rc) => input@.len() > 0 && rc.1 == input@[0] && is_letter(rc.1) && rc.0@
                == input@.skip(1),
            Option::None => input@.len() == 0 || !is_letter(input@[0]),
        },
{
    let n = input.unicode_len();
    if n == 0 {
        return Option::None;
    }
    let c = input.get_char(0);
    if 'a' <= c && c <= 'z' {
        let rest = input.substring_char(1, n);
        proof {
            assert(rest@ =~= input@.skip(1));
        }
        Option::Some((rest, c))
    } else {
        Option::None
    }
}

/// Scans one decimal digit off the front of `input`.
pub fn digit(input: &str) -> (r: Option<(&str, char)>)
    ensures
        match r {
            Option::Some(rc) => input@.len() > 0 && rc.1 == input@[0] && is_digit(rc.1) && rc.0@
                == input@.skip(1),
            Option::None => input@.len() == 0 || !is_digit(input@[0]),
        },
{
    let n = input.unicode_len();
    if n == 0 {
        return Option::None;
    }
    let c = input.get_char(0);
    if '0' <= c && c <= '9' {
        let rest = input.substring_char(1, n);
        proof {
            assert(rest@ =~= input@.skip(1));
        }
        Option::Some((rest, c))
    } else {
        Option::None
    }
}

/// Scans a simple identifier off the front of `input`:
/// `simple_id = letter { letter | digit | _ }`.
pub fn simple_id(input: &str) -> (r: Option<(&str, String)>)
    ensures
        match r {
            Option::Some(ri) => {
                let e = id_end(input@, 1);
                &&& input@.len() > 0
                &&& is_letter(input@[0])
                &&& ri.1@ == input@.subrange(0, e)
                &&& ri.0@ == input@.skip(e)
            },
            Option::None => input@.len() == 0 || !is_letter(input@[0]),
        },
{
    let n = input.unicode_len();
    if n == 0 {
        return Option::None;
    }
    let c = input.get_char(0);
    if !('a' <= c && c <= 'z') {
        return Option::None;
    }
    let mut i: usize = 1;
    while i < n
        invariant_except_break
            1 <= i <= n,
            n == input@.len(),
            id_end(input@, 1) == id_end(input@, i as int),
        ensures
            1 <= i <= n,
            n == input@.len(),
            id_end(input@, 1) == i as int,
        decreases n - i,
    {
        let c2 = input.get_char(i);
        let id_ch = ('a' <= c2 && c2 <= 'z') || ('0' <= c2 && c2 <= '9') || c2 == '_';
        if !id_ch {
            proof {
                assert(id_end(input@, i as int) == i as int);
            }
            break ;
        }
        i += 1;
    }
    let id_part = input.substring_char(0, i);
    let rest = input.substring_char(i, n);
    let id = id_part.to_owned();
    proof {
        assert(rest@ =~= input@.skip(i as int));
    }
    Option::Some((rest, id))
}

} // verus!

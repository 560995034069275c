//! Text-level pieces of response extraction: the JSONP padding strip, the
//! defensive address-character run, and the JSON pointer built from a key
//! path.

use vstd::prelude::*;

use crate::text::matches_at;
use crate::text::rfind_char_before;
use crate::text::skip_spaces;
use crate::text::spec_trim;

verus! {

// ------------------------------------------------------------------
// Address-character run
// ------------------------------------------------------------------

/// The characters an address literal may consist of; anything else is
/// stray formatting a provider may emit around it.
pub open spec fn addr_char(c: char) -> bool {
    let u = c as u32;
    (0x30 <= u && u <= 0x39) || (0x61 <= u && u <= 0x7a) || (0x41 <= u && u <= 0x5a) || c == '.'
        || c == ':'
}

fn is_addr_char(c: char) -> (r: bool)
    ensures
        r == addr_char(c),
{
    let u = c as u32;
    (0x30 <= u && u <= 0x39) || (0x61 <= u && u <= 0x7a) || (0x41 <= u && u <= 0x5a) || c == '.'
        || c == ':'
}

/// Index of the first address character at or after `i` (the length when
/// there is none).
pub open spec fn first_addr_char(s: Seq<char>, i: int) -> int
    decreases s.len() - i when 0 <= i <= s.len()
{
    if i >= s.len() {
        i
    } else if addr_char(s[i]) {
        i
    } else {
        first_addr_char(s, i + 1)
    }
}

/// Index of the first non-address character at or after `i`.
pub open spec fn addr_run_end(s: Seq<char>, i: int) -> int
    decreases s.len() - i when 0 <= i <= s.len()
{
    if i >= s.len() {
        i
    } else if addr_char(s[i]) {
        addr_run_end(s, i + 1)
    } else {
        i
    }
}

/// The first maximal run of address characters in `s`; `None` when `s`
/// holds no address character at all.
pub open spec fn spec_strip_addr_run(s: Seq<char>) -> Option<Seq<char>> {
    let a = first_addr_char(s, 0);
    if a == s.len() {
        None
    } else {
        Some(s.subrange(a, addr_run_end(s, a)))
    }
}

pub fn strip_addr_run(s: &Vec<char>) -> (r: Option<Vec<char>>)
    ensures
        r is Some <==> spec_strip_addr_run(s@) is Some,
        r matches Some(v) ==> spec_strip_addr_run(s@) matches Some(w) && v@ == w,
{
    let mut a: usize = 0;
    while a < s.len() && !is_addr_char(s[a])
        invariant
            0 <= a <= s@.len(),
            first_addr_char(s@, 0) == first_addr_char(s@, a as int),
        decreases s@.len() - a,
    {
        a = a + 1;
    }
    if a == s.len() {
        return None;
    }
    let mut b: usize = a;
    while b < s.len() && is_addr_char(s[b])
        invariant
            a <= b <= s@.len(),
            addr_run_end(s@, a as int) == addr_run_end(s@, b as int),
        decreases s@.len() - b,
    {
        b = b + 1;
    }
    Some(crate::text::copy_range(s, a, b))
}

// ------------------------------------------------------------------
// JSONP padding
// ------------------------------------------------------------------

/// When the wrapper name matches at `i` and an opening parenthesis follows
/// after optional whitespace, the index of that parenthesis.
pub open spec fn pad_open_at(s: Seq<char>, pad: Seq<char>, i: int) -> Option<int> {
    if matches_at(s, pad, i) {
        let k = skip_spaces(s, i + pad.len());
        if k < s.len() && s[k] == '(' {
            Some(k)
        } else {
            None
        }
    } else {
        None
    }
}

/// The parenthesis index of the leftmost wrapper occurrence at or after
/// `i`; `None` when the pattern occurs nowhere.
pub open spec fn find_pad_open(s: Seq<char>, pad: Seq<char>, i: int) -> Option<int>
    decreases s.len() - i when 0 <= i <= s.len()
{
    if i >= s.len() {
        None
    } else if pad_open_at(s, pad, i) is Some {
        pad_open_at(s, pad, i)
    } else {
        find_pad_open(s, pad, i + 1)
    }
}

/// The effective body inside a JSONP wrapper: the text between the
/// parenthesis that follows the leftmost occurrence of `pad` and the last
/// closing parenthesis of `s`, trimmed.  `None` when the wrapper does not
/// occur or no closing parenthesis follows it.
pub open spec fn spec_strip_padding(s: Seq<char>, pad: Seq<char>) -> Option<Seq<char>> {
    match find_pad_open(s, pad, 0) {
        None => None,
        Some(k) => {
            let e = rfind_char_before(s, ')', s.len() as int);
            if e > k {
                Some(spec_trim(s.subrange(k + 1, e)))
            } else {
                None
            }
        },
    }
}

fn pad_open_at_exec(s: &Vec<char>, pad: &Vec<char>, i: usize) -> (r: Option<usize>)
    requires
        i <= s@.len(),
    ensures
        r is Some <==> pad_open_at(s@, pad@, i as int) is Some,
        r matches Some(k) ==> pad_open_at(s@, pad@, i as int) == Some(k as int) && k < s@.len(),
{
    let len: usize = s.len();
    if !crate::text::pattern_at(s, pad, i) {
        return None;
    }
    let k = crate::text::skip_spaces_from(s, i + pad.len());
    if k < s.len() && s[k] == '(' {
        Some(k)
    } else {
        None
    }
}

fn find_pad_open_exec(s: &Vec<char>, pad: &Vec<char>) -> (r: Option<usize>)
    ensures
        r is Some <==> find_pad_open(s@, pad@, 0) is Some,
        r matches Some(k) ==> find_pad_open(s@, pad@, 0) == Some(k as int) && k < s@.len(),
{
    let mut i: usize = 0;
    while i < s.len()
        invariant
            0 <= i <= s@.len(),
            find_pad_open(s@, pad@, 0) == find_pad_open(s@, pad@, i as int),
        decreases s@.len() - i,
    {
        match pad_open_at_exec(s, pad, i) {
            Some(k) => {
                return Some(k);
            },
            None => {
                i = i + 1;
            },
        }
    }
    None
}

pub fn strip_padding(s: &Vec<char>, pad: &Vec<char>) -> (r: Option<Vec<char>>)
    ensures
        r is Some <==> spec_strip_padding(s@, pad@) is Some,
        r matches Some(v) ==> spec_strip_padding(s@, pad@) matches Some(w) && v@ == w,
{
    let k = match find_pad_open_exec(s, pad) {
        Some(k) => k,
        None => {
            return None;
        },
    };
    match crate::text::rfind_char(s, ')') {
        Some(e) => {
            if e > k {
                let inner = crate::text::copy_range(s, k + 1, e);
                Some(crate::text::trim_chars(&inner))
            } else {
                None
            }
        },
        None => None,
    }
}

// ------------------------------------------------------------------
// JSON pointer from a key path
// ------------------------------------------------------------------

/// The pointer text for the first `i` keys: a `/` before each key.
pub open spec fn spec_pointer_upto(key: Seq<Seq<char>>, i: int) -> Seq<char>
    decreases i,
{
    if i <= 0 {
        Seq::<char>::empty()
    } else {
        spec_pointer_upto(key, i - 1) + seq!['/'] + key[i - 1]
    }
}

/// The JSON pointer a key path navigates by: `/`-joined keys, a lone `/`
/// for an empty path.
pub open spec fn spec_pointer(key: Seq<Seq<char>>) -> Seq<char> {
    if key.len() == 0 {
        seq!['/']
    } else {
        spec_pointer_upto(key, key.len() as int)
    }
}

/// Appends the characters of `src` to `dst`.
fn append_chars(dst: &mut Vec<char>, src: &Vec<char>)
    ensures
        final(dst)@ == old(dst)@ + src@,
{
    let mut i: usize = 0;
    while i < src.len()
        invariant
            0 <= i <= src@.len(),
            dst@ == old(dst)@ + src@.subrange(0, i as int),
        decreases src@.len() - i,
    {
        dst.push(src[i]);
        i = i + 1;
        proof {
            assert(dst@ =~= old(dst)@ + src@.subrange(0, i as int));
        }
    }
    proof {
        assert(old(dst)@ + src@.subrange(0, src@.len() as int) =~= old(dst)@ + src@);
    }
}

/// Builds the pointer text for a key path.
pub fn build_pointer(key: &Vec<String>) -> (r: Vec<char>)
    ensures
        r@ == spec_pointer(key.deep_view()),
{
    if key.len() == 0 {
        let mut r: Vec<char> = Vec::new();
        r.push('/');
        proof {
            assert(r@ =~= seq!['/']);
        }
        return r;
    }
    let mut r: Vec<char> = Vec::new();
    let mut i: usize = 0;
    while i < key.len()
        invariant
            0 <= i <= key@.len(),
            r@ == spec_pointer_upto(key.deep_view(), i as int),
        decreases key@.len() - i,
    {
        r.push('/');
        let ks = crate::text::str_to_chars(key[i].as_str());
        append_chars(&mut r, &ks);
        i = i + 1;
        proof {
            assert(r@ =~= spec_pointer_upto(key.deep_view(), i as int));
        }
    }
    r
}

} // verus!

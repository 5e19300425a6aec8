use vstd::prelude::*;

verus! {

/// The characters of a byte string, one per byte.
pub open spec fn chars_of(t: Seq<u8>) -> Seq<char> {
    t.map_values(|b: u8| b as char)
}

/// The characters of a digit run with the grouping underscores taken out.
pub open spec fn without_underscores(t: Seq<char>) -> Seq<char> {
    t.filter(|c: char| c != '_')
}

/// The upper-case form of a lower-case hex letter; any other character is kept.
pub open spec fn upper_hex(c: char) -> char {
    if c == 'a' {
        'A'
    } else if c == 'b' {
        'B'
    } else if c == 'c' {
        'C'
    } else if c == 'd' {
        'D'
    } else if c == 'e' {
        'E'
    } else if c == 'f' {
        'F'
    } else {
        c
    }
}

pub open spec fn upper_hex_all(t: Seq<char>) -> Seq<char> {
    t.map_values(|c: char| upper_hex(c))
}

/// Removes every underscore from `v`, keeping the order of the other characters.
pub fn remove_underscores(v: &mut Vec<char>)
    ensures
        final(v)@ == without_underscores(old(v)@),
{
    let mut kept: Vec<char> = Vec::new();
    let n: usize = v.len();
    let mut i: usize = 0;
    while i < n
        invariant
            n == v.len(),
            i <= n,
            kept@ == without_underscores(v@.subrange(0, i as int)),
        decreases n - i,
    {
        let c = v[i];
        proof {
            let pre = v@.subrange(0, i as int);
            let next = v@.subrange(0, i as int + 1);
            assert(next.drop_last() =~= pre);
            assert(next.last() == c);
            reveal_with_fuel(Seq::filter, 1);
        }
        if c != '_' {
            kept.push(c);
        }
        i = i + 1;
    }
    assert(v@.subrange(0, n as int) =~= v@);
    *v = kept;
}

/// Replaces every lower-case hex letter in `v` by its upper-case form, in place.
pub fn replace_lowercase_digits(v: &mut Vec<char>)
    ensures
        final(v)@ == upper_hex_all(old(v)@),
{
    let n: usize = v.len();
    let mut i: usize = 0;
    while i < n
        invariant
            n == v.len(),
            i <= n,
            forall|k: int| 0 <= k < i ==> v@[k] == upper_hex(old(v)@[k]),
            forall|k: int| i <= k < n ==> v@[k] == old(v)@[k],
        decreases n - i,
    {
        let c = v[i];
        let u = match c {
            'a' => 'A',
            'b' => 'B',
            'c' => 'C',
            'd' => 'D',
            'e' => 'E',
            'f' => 'F',
            _ => c,
        };
        v.set(i, u);
        i = i + 1;
    }
    assert(v@ =~= upper_hex_all(old(v)@));
}

} // verus!

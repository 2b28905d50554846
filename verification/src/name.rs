//! Names: identifiers, keywords and message text, held as vectors of
//! characters and modelled as character sequences, with the lexicographic
//! order the ordering validator relies on.

use vstd::prelude::*;
use vstd::string::StrSliceExecFns;

verus! {

/// Lexicographic order on character sequences, by code point: the empty
/// sequence comes first, and otherwise the first differing position decides.
pub open spec fn lex_leq(a: Seq<char>, b: Seq<char>) -> bool
    decreases a.len(),
{
    if a.len() == 0 {
        true
    } else if b.len() == 0 {
        false
    } else if (a[0] as u32) < (b[0] as u32) {
        true
    } else if (a[0] as u32) > (b[0] as u32) {
        false
    } else {
        lex_leq(a.drop_first(), b.drop_first())
    }
}

/// Strict lexicographic order.
pub open spec fn lex_lt(a: Seq<char>, b: Seq<char>) -> bool {
    lex_leq(a, b) && a != b
}

pub proof fn lemma_lex_leq_refl(a: Seq<char>)
    ensures
        lex_leq(a, a),
    decreases a.len(),
{
    if a.len() > 0 {
        lemma_lex_leq_refl(a.drop_first());
    }
}

pub proof fn lemma_lex_leq_total(a: Seq<char>, b: Seq<char>)
    ensures
        lex_leq(a, b) || lex_leq(b, a),
    decreases a.len(),
{
    if a.len() > 0 && b.len() > 0 && (a[0] as u32) == (b[0] as u32) {
        lemma_lex_leq_total(a.drop_first(), b.drop_first());
    }
}

pub proof fn lemma_lex_leq_antisym(a: Seq<char>, b: Seq<char>)
    requires
        lex_leq(a, b),
        lex_leq(b, a),
    ensures
        a == b,
    decreases a.len(),
{
    if a.len() == 0 {
        assert(b.len() == 0);
        assert(a =~= b);
    } else {
        let x = a[0];
        let y = b[0];
        assert((x as u32) == (y as u32));
        vstd::utf8::char_u32_cast(x, x as u32);
        vstd::utf8::char_u32_cast(y, y as u32);
        assert(x == y);
        lemma_lex_leq_antisym(a.drop_first(), b.drop_first());
        assert(a =~= seq![a[0]] + a.drop_first());
        assert(b =~= seq![b[0]] + b.drop_first());
    }
}

pub proof fn lemma_lex_leq_trans(a: Seq<char>, b: Seq<char>, c: Seq<char>)
    requires
        lex_leq(a, b),
        lex_leq(b, c),
    ensures
        lex_leq(a, c),
    decreases a.len(),
{
    if a.len() > 0 && b.len() > 0 && c.len() > 0 {
        if (a[0] as u32) == (b[0] as u32) && (b[0] as u32) == (c[0] as u32) {
            lemma_lex_leq_trans(a.drop_first(), b.drop_first(), c.drop_first());
        }
    }
}

/// Compares the suffixes of two names that start at position `i`.
fn le_from(a: &Vec<char>, b: &Vec<char>, i: usize) -> (r: bool)
    requires
        i <= a@.len(),
        i <= b@.len(),
    ensures
        r == lex_leq(a@.skip(i as int), b@.skip(i as int)),
    decreases a@.len() - i,
{
    if i == a.len() {
        true
    } else if i == b.len() {
        false
    } else {
        let x = a[i];
        let y = b[i];
        proof {
            assert(a@.skip(i as int)[0] == a@[i as int]);
            assert(b@.skip(i as int)[0] == b@[i as int]);
            assert(a@.skip(i as int).drop_first() =~= a@.skip(i + 1));
            assert(b@.skip(i as int).drop_first() =~= b@.skip(i + 1));
        }
        if (x as u32) < (y as u32) {
            true
        } else if (x as u32) > (y as u32) {
            false
        } else {
            le_from(a, b, i + 1)
        }
    }
}

/// Decides the lexicographic order of two names.
pub fn name_le(a: &Vec<char>, b: &Vec<char>) -> (r: bool)
    ensures
        r == lex_leq(a@, b@),
{
    proof {
        assert(a@.skip(0) =~= a@);
        assert(b@.skip(0) =~= b@);
    }
    le_from(a, b, 0)
}

/// Decides whether two names are the same.
pub fn name_eq(a: &Vec<char>, b: &Vec<char>) -> (r: bool)
    ensures
        r == (a@ == b@),
{
    if a.len() != b.len() {
        return false;
    }
    let mut i: usize = 0;
    while i < a.len()
        invariant
            i <= a@.len(),
            a@.len() == b@.len(),
            forall|j: int| 0 <= j < i ==> a@[j] == b@[j],
        decreases a@.len() - i,
    {
        if a[i] != b[i] {
            return false;
        }
        i = i + 1;
    }
    proof {
        assert(a@ =~= b@);
    }
    true
}

/// Decides strict lexicographic order of two names.
pub fn name_lt(a: &Vec<char>, b: &Vec<char>) -> (r: bool)
    ensures
        r == lex_lt(a@, b@),
{
    name_le(a, b) && !name_eq(a, b)
}

/// Builds a name from borrowed text, character for character.
pub fn chars_of(s: &str) -> (r: Vec<char>)
    ensures
        r@ == s@,
{
    let n = s.unicode_len();
    let mut r: Vec<char> = Vec::new();
    let mut i: usize = 0;
    while i < n
        invariant
            i <= n,
            n == s@.len(),
            r@ =~= s@.take(i as int),
        decreases n - i,
    {
        r.push(s.get_char(i));
        proof {
            assert(r@ =~= s@.take(i + 1));
        }
        i = i + 1;
    }
    proof {
        assert(r@ =~= s@);
    }
    r
}

/// Decides whether a name spells the given text.
pub fn name_is(a: &Vec<char>, s: &str) -> (r: bool)
    ensures
        r == (a@ == s@),
{
    let t = chars_of(s);
    name_eq(a, &t)
}

/// Copies a name.
pub fn copy_name(a: &Vec<char>) -> (r: Vec<char>)
    ensures
        r@ == a@,
{
    let mut r: Vec<char> = Vec::new();
    let mut i: usize = 0;
    while i < a.len()
        invariant
            i <= a@.len(),
            r@ =~= a@.take(i as int),
        decreases a@.len() - i,
    {
        r.push(a[i]);
        proof {
            assert(r@ =~= a@.take(i + 1));
        }
        i = i + 1;
    }
    proof {
        assert(r@ =~= a@);
    }
    r
}

/// Appends one name to another.
pub fn append_name(a: &mut Vec<char>, b: &Vec<char>)
    ensures
        final(a)@ == old(a)@ + b@,
{
    let mut i: usize = 0;
    while i < b.len()
        invariant
            i <= b@.len(),
            a@ =~= old(a)@ + b@.take(i as int),
        decreases b@.len() - i,
    {
        a.push(b[i]);
        proof {
            assert(a@ =~= old(a)@ + b@.take(i + 1));
        }
        i = i + 1;
    }
    proof {
        assert(a@ =~= old(a)@ + b@);
    }
}

/// The decimal digit characters of a number, most significant first.
pub open spec fn dec_chars(n: nat) -> Seq<char>
    decreases n,
{
    if n < 10 {
        seq![digit_char(n)]
    } else {
        dec_chars(n / 10) + seq![digit_char(n % 10)]
    }
}

/// The character for one decimal digit.
pub open spec fn digit_char(d: nat) -> char {
    if d == 0 {
        '0'
    } else if d == 1 {
        '1'
    } else if d == 2 {
        '2'
    } else if d == 3 {
        '3'
    } else if d == 4 {
        '4'
    } else if d == 5 {
        '5'
    } else if d == 6 {
        '6'
    } else if d == 7 {
        '7'
    } else if d == 8 {
        '8'
    } else {
        '9'
    }
}

fn digit_char_of(d: u64) -> (c: char)
    requires
        d < 10,
    ensures
        c == digit_char(d as nat),
{
    if d == 0 {
        '0'
    } else if d == 1 {
        '1'
    } else if d == 2 {
        '2'
    } else if d == 3 {
        '3'
    } else if d == 4 {
        '4'
    } else if d == 5 {
        '5'
    } else if d == 6 {
        '6'
    } else if d == 7 {
        '7'
    } else if d == 8 {
        '8'
    } else {
        '9'
    }
}

/// Renders a number in decimal.
pub fn dec_name(n: u64) -> (r: Vec<char>)
    ensures
        r@ == dec_chars(n as nat),
    decreases n,
{
    if n < 10 {
        let mut r: Vec<char> = Vec::new();
        r.push(digit_char_of(n));
        proof {
            assert(r@ =~= dec_chars(n as nat));
        }
        r
    } else {
        let mut r = dec_name(n / 10);
        r.push(digit_char_of(n % 10));
        proof {
            assert(r@ =~= dec_chars((n / 10) as nat) + seq![digit_char((n % 10) as nat)]);
        }
        r
    }
}

} // verus!

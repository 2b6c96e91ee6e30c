//! Small verified text utilities shared by the report and snapshot
//! subsystems: appending, equality, and decimal rendering.

use vstd::prelude::*;

verus! {

/// Append every character of `piece` to `out`.
pub fn append_chars(out: &mut Vec<char>, piece: &Vec<char>)
    ensures
        final(out)@ == old(out)@ + piece@,
{
    let mut t: usize = 0;
    while t < piece.len()
        invariant
            t <= piece@.len(),
            out@ == old(out)@ + piece@.take(t as int),
        decreases piece@.len() - t,
    {
        out.push(piece[t]);
        proof {
            assert(piece@.take(t as int + 1) =~= piece@.take(t as int).push(piece@[t as int]));
            assert(old(out)@ + piece@.take(t as int + 1) =~= (old(out)@ + piece@.take(
                t as int,
            )).push(piece@[t as int]));
        }
        t += 1;
    }
    proof {
        assert(piece@.take(piece@.len() as int) =~= piece@);
    }
}

/// Exact character-sequence equality.
pub fn chars_eq(a: &Vec<char>, b: &Vec<char>) -> (r: bool)
    ensures
        r == (a@ == b@),
{
    if a.len() != b.len() {
        proof {
            assert(a@ != b@);
        }
        return false;
    }
    let mut k: usize = 0;
    while k < a.len()
        invariant
            a@.len() == b@.len(),
            k <= a@.len(),
            forall|t: int| 0 <= t < k ==> a@[t] == b@[t],
        decreases a@.len() - k,
    {
        if a[k] != b[k] {
            return false;
        }
        k += 1;
    }
    proof {
        assert(a@ =~= b@);
    }
    true
}

/// A fresh copy of a character vector.
pub fn copy_chars(v: &Vec<char>) -> (r: Vec<char>)
    ensures
        r@ == v@,
{
    let mut out: Vec<char> = Vec::new();
    append_chars(&mut out, v);
    proof {
        assert(Seq::<char>::empty() + v@ =~= v@);
    }
    out
}

/// The decimal digit character of `d`.
pub open spec fn digit_char(d: int) -> char {
    ((48 + d) as u8) as char
}

/// The decimal rendering of `n`, most significant digit first.
pub open spec fn dec_chars(n: int) -> Seq<char>
    decreases n,
{
    if n < 10 {
        seq![digit_char(if n < 0 {
            0
        } else {
            n
        })]
    } else {
        dec_chars(n / 10).push(digit_char(n % 10))
    }
}

/// Render `n` in decimal.
pub fn u64_to_dec(n: u64) -> (r: Vec<char>)
    ensures
        r@ == dec_chars(n as int),
    decreases n,
{
    if n < 10 {
        let d = (48 + (n as u8)) as char;
        let mut out: Vec<char> = Vec::new();
        out.push(d);
        proof {
            assert(out@ =~= dec_chars(n as int));
        }
        out
    } else {
        let mut out = u64_to_dec(n / 10);
        let d = (48 + ((n % 10) as u8)) as char;
        out.push(d);
        out
    }
}

} // verus!

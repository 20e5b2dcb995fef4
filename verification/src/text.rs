//! Small verified text helpers: appending characters, decimal formatting
//! of identifiers for synthesized addresses, and stripping apostrophes from
//! a display name before a name-keyed lookup.
use vstd::prelude::*;
use vstd::std_specs::iter::IteratorSpec;

verus! {

/// Relies on String::push: appends exactly the given character.
#[verifier::external_body]
pub fn push_char(s: &mut String, c: char)
    ensures
        final(s)@ == old(s)@.push(c),
{
    s.push(c)
}

/// The digit character for one decimal digit.
pub open spec fn spec_digit(d: nat) -> char
    recommends
        d < 10,
{
    ((48 + d) as u8) as char
}

/// The decimal form of a number, most significant digit first, without
/// leading zeros (a single zero for zero).
pub open spec fn spec_udec(n: nat) -> Seq<char>
    decreases n,
{
    if n < 10 {
        seq![spec_digit(n)]
    } else {
        spec_udec(n / 10) + seq![spec_digit(n % 10)]
    }
}

/// Append the decimal form of `n`.
pub fn push_udec(s: &mut String, n: u64)
    ensures
        final(s)@ == old(s)@ + spec_udec(n as nat),
    decreases n,
{
    if n >= 10 {
        push_udec(s, n / 10);
    }
    let d: u8 = (n % 10) as u8 + 48;
    push_char(s, d as char);
    proof {
        if n < 10 {
            assert(old(s)@.push(spec_digit(n as nat)) =~= old(s)@ + spec_udec(n as nat));
        } else {
            assert((old(s)@ + spec_udec((n / 10) as nat)).push(spec_digit((n % 10) as nat)) =~= old(
                s,
            )@ + spec_udec(n as nat));
        }
    }
}

/// The decimal form of `n` as a string.
pub fn u64_to_string(n: u64) -> (r: String)
    ensures
        r@ == spec_udec(n as nat),
{
    let mut s = String::new();
    push_udec(&mut s, n);
    proof {
        assert(Seq::<char>::empty() + spec_udec(n as nat) =~= spec_udec(n as nat));
    }
    s
}

/// `s` with every apostrophe removed.
pub open spec fn strip_apostrophes(s: Seq<char>) -> Seq<char>
    decreases s.len(),
{
    if s.len() == 0 {
        Seq::empty()
    } else {
        strip_apostrophes(s.drop_last()) + (if s.last() == '\'' {
            Seq::<char>::empty()
        } else {
            seq![s.last()]
        })
    }
}

/// Remove every apostrophe from a string.
pub fn remove_apostrophes(name: &str) -> (r: String)
    ensures
        r@ == strip_apostrophes(name@),
{
    broadcast use vstd::string::axiom_spec_iter;
    broadcast use vstd::string::next_postcondition;

    let mut out = String::new();
    let mut it = name.chars();
    let ghost mut k: int = 0;
    proof {
        assert(name@.skip(0) =~= name@);
        assert(Seq::<char>::empty() + strip_apostrophes(name@.take(0)) =~= strip_apostrophes(
            name@.take(0),
        ));
        assert(strip_apostrophes(name@.take(0)) =~= Seq::<char>::empty());
    }
    loop
        invariant
            0 <= k <= name@.len(),
            vstd::std_specs::iter::IteratorSpec::remaining(&it) =~= name@.skip(k),
            it.obeys_prophetic_iter_laws(),
            out@ == strip_apostrophes(name@.take(k)),
        decreases name@.len() - k,
    {
        let next = it.next();
        match next {
            Some(c) => {
                proof {
                    assert(name@.skip(k)[0] == name@[k]);
                    assert(name@.take(k + 1).drop_last() =~= name@.take(k));
                    assert(name@.take(k + 1).last() == name@[k]);
                    assert(name@.skip(k).drop_first() =~= name@.skip(k + 1));
                }
                if c != '\'' {
                    push_char(&mut out, c);
                    proof {
                        assert(strip_apostrophes(name@.take(k)).push(c) =~= strip_apostrophes(
                            name@.take(k + 1),
                        ));
                    }
                }
                proof {
                    k = k + 1;
                }
            },
            None => {
                proof {
                    assert(name@.skip(k).len() == 0);
                    assert(name@.take(k) =~= name@);
                }
                return out;
            },
        }
    }
}

} // verus!

//! Helpers for building exact wire bytes: appending, decimal rendering,
//! and space-separated joins.

use vstd::prelude::*;

use crate::number::spec_dec_str;

verus! {

/// Append all bytes of `s` to `out`.
pub fn push_all(out: &mut Vec<u8>, s: &[u8])
    ensures
        final(out)@ == old(out)@ + s@,
{
    let mut i: usize = 0;
    proof {
        assert(out@ =~= old(out)@ + s@.take(0));
    }
    while i < s.len()
        invariant
            0 <= i <= s.len(),
            out@ == old(out)@ + s@.take(i as int),
        decreases s.len() - i,
    {
        out.push(s[i]);
        proof {
            assert(s@.take(i + 1) =~= s@.take(i as int).push(s@[i as int]));
            assert(old(out)@ + s@.take(i + 1) =~= (old(out)@ + s@.take(i as int)).push(
                s@[i as int],
            ));
        }
        i += 1;
    }
    proof {
        assert(s@.take(s@.len() as int) =~= s@);
    }
}

/// Append the base-10 digits of `n` to `out`.
pub fn push_dec_u32(out: &mut Vec<u8>, n: u32)
    ensures
        final(out)@ == old(out)@ + spec_dec_str(n as int),
    decreases n,
{
    if n <= 9 {
        out.push(0x30 + n as u8);
        proof {
            assert(old(out)@ + spec_dec_str(n as int) =~= old(out)@.push((0x30 + n) as u8));
        }
    } else {
        push_dec_u32(out, n / 10);
        out.push(0x30 + (n % 10) as u8);
        proof {
            assert(old(out)@ + spec_dec_str(n as int) =~= (old(out)@ + spec_dec_str(
                n as int / 10,
            )).push((0x30 + n as int % 10) as u8));
        }
    }
}

/// Append the base-10 digits of `n` to `out`.  This is how lengths are
/// rendered, which may exceed the 32-bit range of protocol numbers.
pub fn push_dec_u64(out: &mut Vec<u8>, n: u64)
    ensures
        final(out)@ == old(out)@ + spec_dec_str(n as int),
    decreases n,
{
    if n <= 9 {
        out.push(0x30 + n as u8);
        proof {
            assert(old(out)@ + spec_dec_str(n as int) =~= old(out)@.push((0x30 + n) as u8));
        }
    } else {
        push_dec_u64(out, n / 10);
        out.push(0x30 + (n % 10) as u8);
        proof {
            assert(old(out)@ + spec_dec_str(n as int) =~= (old(out)@ + spec_dec_str(
                n as int / 10,
            )).push((0x30 + n as int % 10) as u8));
        }
    }
}

/// Join already-rendered pieces with a single ASCII space between them:
/// no leading, trailing, or doubled separator.
pub open spec fn sp_join(items: Seq<Seq<u8>>) -> Seq<u8>
    decreases items.len(),
{
    if items.len() == 0 {
        Seq::empty()
    } else if items.len() == 1 {
        items[0]
    } else {
        items[0] + seq![0x20u8] + sp_join(items.skip(1))
    }
}

/// Appending one more piece to a join appends a separator exactly when the
/// join was not empty.
pub proof fn lemma_sp_join_push(items: Seq<Seq<u8>>, x: Seq<u8>)
    ensures
        sp_join(items.push(x)) == if items.len() == 0 {
            x
        } else {
            sp_join(items) + seq![0x20u8] + x
        },
    decreases items.len(),
{
    if items.len() == 0 {
        assert(items.push(x)[0] == x);
    } else {
        lemma_sp_join_push(items.skip(1), x);
        assert(items.push(x).skip(1) =~= items.skip(1).push(x));
        assert(items.push(x)[0] == items[0]);
        if items.len() == 1 {
            assert(sp_join(items.skip(1)) =~= Seq::<u8>::empty());
            assert(sp_join(items) == items[0]);
            assert(sp_join(items.push(x)) == items[0] + seq![0x20u8] + x);
        } else {
            assert(items[0] + seq![0x20u8] + (sp_join(items.skip(1)) + seq![0x20u8] + x) =~= (
            items[0] + seq![0x20u8] + sp_join(items.skip(1))) + seq![0x20u8] + x);
        }
    }
}

/// A value with a canonical wire rendering.
pub trait Wire {
    /// The exact bytes this value renders to.
    spec fn wire(&self) -> Seq<u8>;

    /// Append the rendering to `out`.
    fn write_wire(&self, out: &mut Vec<u8>)
        ensures
            final(out)@ == old(out)@ + self.wire(),
    ;
}

/// The renderings of a sequence of values.
pub open spec fn wires<T: Wire>(items: Seq<T>) -> Seq<Seq<u8>> {
    items.map(|i: int, x: T| x.wire())
}

/// Append the renderings of all items, separated by single spaces.
pub fn write_joined<T: Wire>(items: &Vec<T>, out: &mut Vec<u8>)
    ensures
        final(out)@ == old(out)@ + sp_join(wires(items@)),
{
    let mut i: usize = 0;
    proof {
        assert(wires(items@.take(0)) =~= Seq::<Seq<u8>>::empty());
        assert(out@ =~= old(out)@ + sp_join(wires(items@.take(0))));
    }
    while i < items.len()
        invariant
            0 <= i <= items.len(),
            out@ == old(out)@ + sp_join(wires(items@.take(i as int))),
        decreases items.len() - i,
    {
        if i > 0 {
            out.push(0x20);
        }
        let ghost mid = out@;
        items[i].write_wire(out);
        proof {
            let pre = wires(items@.take(i as int));
            assert(wires(items@.take(i + 1)) =~= pre.push(items@[i as int].wire()));
            lemma_sp_join_push(pre, items@[i as int].wire());
            if i == 0 {
                assert(out@ =~= old(out)@ + sp_join(wires(items@.take(i + 1))));
            } else {
                assert(out@ =~= old(out)@ + sp_join(wires(items@.take(i + 1))));
            }
        }
        i += 1;
    }
    proof {
        assert(items@.take(items@.len() as int) =~= items@);
    }
}

} // verus!

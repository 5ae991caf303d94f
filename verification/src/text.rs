use vstd::prelude::*;

verus! {

/// Whether two strings hold the same characters.
pub fn str_eq(a: &str, b: &str) -> (r: bool)
    ensures
        r == (a@ == b@),
{
    let x = a.as_bytes();
    let y = b.as_bytes();
    let mut same = x.len() == y.len();
    if same {
        let mut i: usize = 0;
        assert(x@.take(0) =~= y@.take(0));
        while i < x.len()
            invariant
                x@.len() == y@.len(),
                i <= x@.len(),
                same == (x@.take(i as int) == y@.take(i as int)),
            decreases x@.len() - i,
        {
            proof {
                assert(x@.take(i + 1) == x@.take(i as int).push(x@[i as int]));
                assert(y@.take(i + 1) == y@.take(i as int).push(y@[i as int]));
                if x@.take(i + 1) == y@.take(i + 1) {
                    assert(x@.take(i + 1)[i as int] == y@.take(i + 1)[i as int]);
                    assert(x@.take(i as int) =~= x@.take(i + 1).drop_last());
                    assert(y@.take(i as int) =~= y@.take(i + 1).drop_last());
                }
            }
            same = same && x[i] == y[i];
            i = i + 1;
        }
        proof {
            assert(x@.take(i as int) =~= x@);
            assert(y@.take(i as int) =~= y@);
        }
    }
    proof {
        vstd::utf8::encode_utf8_decode_utf8(a@);
        vstd::utf8::encode_utf8_decode_utf8(b@);
    }
    same
}

} // verus!

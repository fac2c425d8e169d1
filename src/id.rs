//! Room ids as they travel in requests: decimal text.
use vstd::prelude::*;
use vstd::string::StringSliceAdditionalSpecFns;

verus! {

/// Whether `b` is one or more ASCII decimal digits.
pub open spec fn is_digits(b: Seq<u8>) -> bool {
    b.len() > 0 && forall|i: int| 0 <= i < b.len() ==> 48 <= #[trigger] b[i] <= 57
}

/// The number that the decimal digits `b` spell.
pub open spec fn digits_value(b: Seq<u8>) -> nat
    decreases b.len(),
{
    if b.len() == 0 {
        0
    } else {
        digits_value(b.drop_last()) * 10 + (b.last() - 48) as nat
    }
}

/// The digits of an id text: what follows an optional leading `+`.
pub open spec fn id_digits(b: Seq<u8>) -> Seq<u8> {
    if b.len() > 0 && b[0] == 43 {
        b.drop_first()
    } else {
        b
    }
}

/// Whether the text with bytes `b` names an id that fits in `usize`.
pub open spec fn is_valid_id(b: Seq<u8>) -> bool {
    is_digits(id_digits(b)) && digits_value(id_digits(b)) <= usize::MAX
}

proof fn digits_value_grows(b: Seq<u8>, i: int)
    requires
        0 <= i <= b.len(),
        forall|j: int| 0 <= j < b.len() ==> 48 <= #[trigger] b[j] <= 57,
    ensures
        digits_value(b.subrange(0, i)) <= digits_value(b),
    decreases b.len() - i,
{
    if i < b.len() {
        digits_value_grows(b, i + 1);
        assert(b.subrange(0, i + 1).drop_last() =~= b.subrange(0, i));
    } else {
        assert(b.subrange(0, i) =~= b);
    }
}

/// Reads a room id: an optional `+` and then decimal digits, whose value
/// fits in `usize`. Anything else, the empty text included, is no id.
pub fn parse_id(s: &str) -> (r: Option<usize>)
    ensures
        r is Some <==> is_valid_id(s.spec_bytes()),
        r is Some ==> r->Some_0 == digits_value(id_digits(s.spec_bytes())),
{
    let b = s.as_bytes();
    let ghost bs = s.spec_bytes();
    let start: usize = if b.len() > 0 && b[0] == 43 { 1 } else { 0 };
    let ghost d = id_digits(bs);
    assert(d =~= bs.subrange(start as int, bs.len() as int));
    if start == b.len() {
        return None;
    }
    let mut value: usize = 0;
    let mut i: usize = start;
    while i < b.len()
        invariant
            b@ == bs,
            bs == s.spec_bytes(),
            d == id_digits(bs),
            d == bs.subrange(start as int, bs.len() as int),
            start <= i <= b.len(),
            forall|j: int| 0 <= j < i - start ==> 48 <= #[trigger] d[j] <= 57,
            value == digits_value(d.subrange(0, i - start)),
        decreases b.len() - i,
    {
        let c = b[i];
        if c < 48 || c > 57 {
            assert(bs[i as int] == c);
            assert(d[i - start] == c);
            assert(!is_digits(d));
            return None;
        }
        let ghost pre = d.subrange(0, i - start);
        assert(d.subrange(0, i + 1 - start).drop_last() =~= pre);
        assert(d.subrange(0, i + 1 - start).last() == c);
        assert(digits_value(d.subrange(0, i + 1 - start)) == value * 10 + (c - 48) as nat);
        match value.checked_mul(10) {
            Some(m) => match m.checked_add((c - 48) as usize) {
                Some(v) => {
                    value = v;
                },
                None => {
                    proof {
                        if is_digits(d) {
                            digits_value_grows(d, i + 1 - start);
                        }
                    }
                    return None;
                },
            },
            None => {
                proof {
                    if is_digits(d) {
                        digits_value_grows(d, i + 1 - start);
                    }
                }
                return None;
            },
        }
        i = i + 1;
    }
    assert(d.subrange(0, d.len() as int) =~= d);
    Some(value)
}

} // verus!

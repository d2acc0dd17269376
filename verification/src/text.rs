//! Text: numbers in decimal, and names in the order the wallet asks for them.

use crate::order;
use crate::order::{KeyOrder, Keyed};
use vstd::prelude::*;
use vstd::utf8::*;

verus! {

/// The decimal digit for a number below ten.
pub open spec fn digit(d: nat) -> char {
    if d == 0 {
        '0'
    } else if d == 1 {
        '1'
    } else if d == 2 {
        '2'
    } else if d == 3 {
        '3'
    } else if d == 4 {
        '4'
    } else if d == 5 {
        '5'
    } else if d == 6 {
        '6'
    } else if d == 7 {
        '7'
    } else if d == 8 {
        '8'
    } else {
        '9'
    }
}

/// A number written in decimal, without leading zeros.
pub open spec fn decimal(n: nat) -> Seq<char>
    decreases n,
{
    if n < 10 {
        seq![digit(n)]
    } else {
        decimal(n / 10).push(digit(n % 10))
    }
}

fn digit_text(d: u64) -> (text: &'static str)
    requires
        d < 10,
    ensures
        text@ == seq![digit(d as nat)],
{
    proof {
        reveal_strlit("0");
        reveal_strlit("1");
        reveal_strlit("2");
        reveal_strlit("3");
        reveal_strlit("4");
        reveal_strlit("5");
        reveal_strlit("6");
        reveal_strlit("7");
        reveal_strlit("8");
        reveal_strlit("9");
    }
    let text = if d == 0 {
        "0"
    } else if d == 1 {
        "1"
    } else if d == 2 {
        "2"
    } else if d == 3 {
        "3"
    } else if d == 4 {
        "4"
    } else if d == 5 {
        "5"
    } else if d == 6 {
        "6"
    } else if d == 7 {
        "7"
    } else if d == 8 {
        "8"
    } else {
        "9"
    };
    assert(text@ =~= seq![digit(d as nat)]);
    text
}

/// Writes a number in decimal.
pub fn decimal_text(n: u64) -> (text: String)
    ensures
        text@ == decimal(n as nat),
    decreases n,
{
    if n < 10 {
        digit_text(n).to_owned()
    } else {
        let mut text = decimal_text(n / 10);
        let last = digit_text(n % 10);
        text.append(last);
        assert(text@ =~= decimal(n as nat));
        text
    }
}

/// The bytes of a text, as the integers that order it.
pub open spec fn text_key(text: Seq<char>) -> Seq<int> {
    encode_utf8(text).map_values(|b: u8| b as int)
}

/// Texts are ordered by their bytes.
impl Keyed for String {
    open spec fn key(&self) -> Seq<int> {
        text_key(self@)
    }

    fn compare_key(&self, other: &Self) -> (order: KeyOrder) {
        let a = self.as_str().as_bytes();
        let b = other.as_str().as_bytes();
        let mut i: usize = 0;
        while i < a.len() && i < b.len()
            invariant
                0 <= i <= a@.len(),
                i <= b@.len(),
                a@ == encode_utf8(self@),
                b@ == encode_utf8(other@),
                forall|j: int| 0 <= j < i ==> a@[j] == b@[j],
            decreases a.len() - i,
        {
            if a[i] < b[i] {
                assert(order::smaller_at(self.key(), other.key(), i as int));
                return KeyOrder::Less;
            }
            if b[i] < a[i] {
                assert(order::smaller_at(other.key(), self.key(), i as int));
                return KeyOrder::Greater;
            }
            i += 1;
        }
        if i < b.len() {
            assert(order::smaller_at(self.key(), other.key(), i as int));
            KeyOrder::Less
        } else if i < a.len() {
            assert(order::smaller_at(other.key(), self.key(), i as int));
            KeyOrder::Greater
        } else {
            assert(self.key() =~= other.key());
            KeyOrder::Equal
        }
    }
}

/// Texts with the same key are the same text.
pub proof fn law_text_key_is_injective(a: Seq<char>, b: Seq<char>)
    requires
        text_key(a) == text_key(b),
    ensures
        a == b,
{
    let x = encode_utf8(a);
    let y = encode_utf8(b);
    assert(x =~= y) by {
        assert(text_key(a).len() == x.len());
        assert(text_key(b).len() == y.len());
        assert forall|i: int| 0 <= i < x.len() implies x[i] == y[i] by {
            assert(text_key(a)[i] == x[i] as int);
            assert(text_key(b)[i] == y[i] as int);
        }
    }
    encode_utf8_decode_utf8(a);
    encode_utf8_decode_utf8(b);
}

} // verus!

//! Node identifiers: 128-bit values, written in the hyphenated form of a
//! UUID wherever they name a directory.

use vstd::prelude::*;
use vstd::arithmetic::div_mod::lemma_div_denominator;
use crate::text::push_one;

verus! {

/// The lower-case hexadecimal digit for `n` in `0..16`.
pub open spec fn hex_digit(n: int) -> char {
    if n == 0 {
        '0'
    } else if n == 1 {
        '1'
    } else if n == 2 {
        '2'
    } else if n == 3 {
        '3'
    } else if n == 4 {
        '4'
    } else if n == 5 {
        '5'
    } else if n == 6 {
        '6'
    } else if n == 7 {
        '7'
    } else if n == 8 {
        '8'
    } else if n == 9 {
        '9'
    } else if n == 10 {
        'a'
    } else if n == 11 {
        'b'
    } else if n == 12 {
        'c'
    } else if n == 13 {
        'd'
    } else if n == 14 {
        'e'
    } else {
        'f'
    }
}

/// 16 to the power `k`.
pub open spec fn pow16(k: nat) -> int
    decreases k,
{
    if k == 0 {
        1
    } else {
        16 * pow16((k - 1) as nat)
    }
}

/// The `k`-th of the 32 hexadecimal digits of `id`, most significant first.
pub open spec fn nibble(id: u128, k: int) -> int {
    (id as int / pow16((31 - k) as nat)) % 16
}

/// The hyphenated text of an identifier: 32 lower-case hexadecimal digits,
/// most significant first, in groups of 8, 4, 4, 4 and 12.
pub open spec fn uuid_text(id: u128) -> Seq<char> {
    Seq::new(
        36,
        |i: int|
            if i == 8 || i == 13 || i == 18 || i == 23 {
                '-'
            } else if i < 8 {
                hex_digit(nibble(id, i))
            } else if i < 13 {
                hex_digit(nibble(id, i - 1))
            } else if i < 18 {
                hex_digit(nibble(id, i - 2))
            } else if i < 23 {
                hex_digit(nibble(id, i - 3))
            } else {
                hex_digit(nibble(id, i - 4))
            },
    )
}

/// Calls `uuid::Uuid::new_v4` and hands back its 128 bits
/// (`Uuid::as_u128`). The value is random: nothing is claimed of it.
#[verifier::external_body]
pub(crate) fn fresh_id() -> (id: u128) {
    uuid::Uuid::new_v4().as_u128()
}

/// The lower-case hexadecimal digit for `n`.
pub fn hex_char(n: u8) -> (c: char)
    requires
        n < 16,
    ensures
        c == hex_digit(n as int),
{
    if n == 0 {
        '0'
    } else if n == 1 {
        '1'
    } else if n == 2 {
        '2'
    } else if n == 3 {
        '3'
    } else if n == 4 {
        '4'
    } else if n == 5 {
        '5'
    } else if n == 6 {
        '6'
    } else if n == 7 {
        '7'
    } else if n == 8 {
        '8'
    } else if n == 9 {
        '9'
    } else if n == 10 {
        'a'
    } else if n == 11 {
        'b'
    } else if n == 12 {
        'c'
    } else if n == 13 {
        'd'
    } else if n == 14 {
        'e'
    } else {
        'f'
    }
}

/// Powers of 16 are positive.
pub proof fn lemma_pow16_positive(k: nat)
    ensures
        pow16(k) > 0,
    decreases k,
{
    if k > 0 {
        lemma_pow16_positive((k - 1) as nat);
    }
}

/// The position among the 32 digits of the digit that stands at `i` of
/// the 36 characters of the hyphenated text.
pub open spec fn digit_at(i: int) -> int {
    if i < 8 {
        i
    } else if i < 13 {
        i - 1
    } else if i < 18 {
        i - 2
    } else if i < 23 {
        i - 3
    } else {
        i - 4
    }
}

/// The hyphenated text of an identifier, as `Display` of a UUID writes
/// it.
pub fn id_text(id: u128) -> (s: String)
    ensures
        s@ == uuid_text(id),
{
    let mut low: Vec<char> = Vec::new();
    let mut rest: u128 = id;
    let mut j: usize = 0;
    while j < 32
        invariant
            j <= 32,
            low@.len() == j,
            rest as int == id as int / pow16(j as nat),
            forall|k: int| 0 <= k < j ==> low@[k] == hex_digit(nibble(id, 31 - k)),
        decreases 32 - j,
    {
        proof {
            lemma_pow16_positive(j as nat);
            lemma_div_denominator(id as int, pow16(j as nat), 16);
            assert(pow16(j as nat) * 16 == pow16((j + 1) as nat));
            assert((31 - (31 - j)) as nat == j as nat);
        }
        let d: u8 = (rest % 16) as u8;
        low.push(hex_char(d));
        rest = rest / 16;
        j += 1;
    }
    let mut s = String::new();
    let mut i: usize = 0;
    while i < 36
        invariant
            i <= 36,
            low@.len() == 32,
            forall|k: int| 0 <= k < 32 ==> low@[k] == hex_digit(nibble(id, 31 - k)),
            s@ == uuid_text(id).take(i as int),
        decreases 36 - i,
    {
        let c = if i == 8 || i == 13 || i == 18 || i == 23 {
            '-'
        } else if i < 8 {
            low[31 - i]
        } else if i < 13 {
            low[32 - i]
        } else if i < 18 {
            low[33 - i]
        } else if i < 23 {
            low[34 - i]
        } else {
            low[35 - i]
        };
        assert(c == uuid_text(id)[i as int]);
        push_one(&mut s, c);
        i += 1;
        assert(s@ =~= uuid_text(id).take(i as int));
    }
    assert(uuid_text(id).take(36) =~= uuid_text(id));
    s
}

} // verus!

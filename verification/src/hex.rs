//! Rendering bytes as space-joined two-digit uppercase hexadecimal.

use vstd::prelude::*;

verus! {

/// The uppercase hexadecimal digit for a value below sixteen.
pub open spec fn hex_digit(d: int) -> char {
    if d == 0 {
        '0'
    } else if d == 1 {
        '1'
    } else if d == 2 {
        '2'
    } else if d == 3 {
        '3'
    } else if d == 4 {
        '4'
    } else if d == 5 {
        '5'
    } else if d == 6 {
        '6'
    } else if d == 7 {
        '7'
    } else if d == 8 {
        '8'
    } else if d == 9 {
        '9'
    } else if d == 10 {
        'A'
    } else if d == 11 {
        'B'
    } else if d == 12 {
        'C'
    } else if d == 13 {
        'D'
    } else if d == 14 {
        'E'
    } else {
        'F'
    }
}

/// The two uppercase hexadecimal digits of one byte.
pub open spec fn hex_pair(b: u8) -> Seq<char> {
    seq![hex_digit(b as int / 16), hex_digit(b as int % 16)]
}

/// All bytes as two-digit uppercase hexadecimal, joined by single spaces.
pub open spec fn hex_render(bytes: Seq<u8>) -> Seq<char>
    decreases bytes.len(),
{
    if bytes.len() == 0 {
        Seq::empty()
    } else if bytes.len() == 1 {
        hex_pair(bytes[0])
    } else {
        hex_render(bytes.drop_last()) + seq![' '] + hex_pair(bytes.last())
    }
}

fn hex_digit_str(d: u8) -> (r: &'static str)
    requires
        d < 16,
    ensures
        r@ == seq![hex_digit(d as int)],
{
    let s: &'static str = match d {
        0 => "0",
        1 => "1",
        2 => "2",
        3 => "3",
        4 => "4",
        5 => "5",
        6 => "6",
        7 => "7",
        8 => "8",
        9 => "9",
        10 => "A",
        11 => "B",
        12 => "C",
        13 => "D",
        14 => "E",
        _ => "F",
    };
    proof {
        reveal_strlit("0");
        reveal_strlit("1");
        reveal_strlit("2");
        reveal_strlit("3");
        reveal_strlit("4");
        reveal_strlit("5");
        reveal_strlit("6");
        reveal_strlit("7");
        reveal_strlit("8");
        reveal_strlit("9");
        reveal_strlit("A");
        reveal_strlit("B");
        reveal_strlit("C");
        reveal_strlit("D");
        reveal_strlit("E");
        reveal_strlit("F");
        assert(s@ =~= seq![hex_digit(d as int)]);
    }
    s
}

proof fn lemma_hex_render_take_succ(bytes: Seq<u8>, i: int)
    requires
        0 <= i < bytes.len(),
    ensures
        i == 0 ==> hex_render(bytes.take(1)) == hex_pair(bytes[0]),
        i > 0 ==> hex_render(bytes.take(i + 1)) == hex_render(bytes.take(i)) + seq![' ']
            + hex_pair(bytes[i]),
{
    let t = bytes.take(i + 1);
    assert(t.drop_last() =~= bytes.take(i));
    assert(t.last() == bytes[i]);
    if i == 0 {
        assert(hex_render(t) == hex_pair(t[0]));
    }
}

/// Renders the bytes of a chunk as space-joined uppercase hexadecimal.
pub fn hex_of_bytes(bytes: &Vec<u8>) -> (s: String)
    ensures
        s@ == hex_render(bytes@),
{
    let mut s = String::new();
    let mut i: usize = 0;
    proof {
        reveal_strlit(" ");
    }
    while i < bytes.len()
        invariant
            i <= bytes@.len(),
            s@ == hex_render(bytes@.take(i as int)),
        decreases bytes@.len() - i,
    {
        proof {
            lemma_hex_render_take_succ(bytes@, i as int);
            reveal_strlit(" ");
        }
        if i > 0 {
            s.append(" ");
            proof {
                assert(" "@ =~= seq![' ']);
            }
        }
        let b = bytes[i];
        s.append(hex_digit_str(b / 16));
        s.append(hex_digit_str(b % 16));
        proof {
            assert(hex_pair(bytes@[i as int]) =~= seq![hex_digit(b as int / 16)] + seq![
                hex_digit(b as int % 16),
            ]);
        }
        i += 1;
    }
    proof {
        assert(bytes@.take(bytes@.len() as int) =~= bytes@);
    }
    s
}

} // verus!

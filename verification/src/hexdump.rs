//! Fixed-width hexadecimal rendering of the heap words read back from a
//! batch: every word as eight hex digits, eight words to a row, each word
//! preceded by a space and every row opened by one more space.

use vstd::prelude::*;
use vstd::string::StringExecFns;

verus! {

/// Words shown per dump row.
pub const WORDS_PER_ROW: usize = 8;

/// The hexadecimal digit character for `n`.
pub open spec fn spec_hex_digit(n: nat) -> char {
    if n == 0 {
        '0'
    } else if n == 1 {
        '1'
    } else if n == 2 {
        '2'
    } else if n == 3 {
        '3'
    } else if n == 4 {
        '4'
    } else if n == 5 {
        '5'
    } else if n == 6 {
        '6'
    } else if n == 7 {
        '7'
    } else if n == 8 {
        '8'
    } else if n == 9 {
        '9'
    } else if n == 10 {
        'a'
    } else if n == 11 {
        'b'
    } else if n == 12 {
        'c'
    } else if n == 13 {
        'd'
    } else if n == 14 {
        'e'
    } else {
        'f'
    }
}

/// `w` as eight hexadecimal digits, most significant first.
pub open spec fn spec_hex32(w: nat) -> Seq<char> {
    seq![
        spec_hex_digit(w / 0x1000_0000 % 16),
        spec_hex_digit(w / 0x100_0000 % 16),
        spec_hex_digit(w / 0x10_0000 % 16),
        spec_hex_digit(w / 0x1_0000 % 16),
        spec_hex_digit(w / 0x1000 % 16),
        spec_hex_digit(w / 0x100 % 16),
        spec_hex_digit(w / 0x10 % 16),
        spec_hex_digit(w % 16),
    ]
}

/// One dump row: a leading space, then each word as a space and its eight
/// digits.
pub open spec fn spec_row_chars(words: Seq<u32>) -> Seq<char>
    decreases words.len(),
{
    if words.len() == 0 {
        seq![' ']
    } else {
        spec_row_chars(words.drop_last()) + seq![' '] + spec_hex32(words.last() as nat)
    }
}

/// The words of row `i` of a dump: the `i`-th run of eight, the last row
/// possibly shorter.
pub open spec fn spec_row_words(words: Seq<u32>, i: int) -> Seq<u32> {
    words.subrange(
        WORDS_PER_ROW as int * i,
        if WORDS_PER_ROW as int * (i + 1) <= words.len() {
            WORDS_PER_ROW as int * (i + 1)
        } else {
            words.len() as int
        },
    )
}

/// The single-character string of hexadecimal digit `d`.
fn hex_digit_str(d: u32) -> (r: &'static str)
    requires
        d < 16,
    ensures
        r@ == seq![spec_hex_digit(d as nat)],
{
    proof {
        reveal_strlit("0");
        reveal_strlit("1");
        reveal_strlit("2");
        reveal_strlit("3");
        reveal_strlit("4");
        reveal_strlit("5");
        reveal_strlit("6");
        reveal_strlit("7");
        reveal_strlit("8");
        reveal_strlit("9");
        reveal_strlit("a");
        reveal_strlit("b");
        reveal_strlit("c");
        reveal_strlit("d");
        reveal_strlit("e");
        reveal_strlit("f");
    }
    let r: &'static str = if d == 0 {
        "0"
    } else if d == 1 {
        "1"
    } else if d == 2 {
        "2"
    } else if d == 3 {
        "3"
    } else if d == 4 {
        "4"
    } else if d == 5 {
        "5"
    } else if d == 6 {
        "6"
    } else if d == 7 {
        "7"
    } else if d == 8 {
        "8"
    } else if d == 9 {
        "9"
    } else if d == 10 {
        "a"
    } else if d == 11 {
        "b"
    } else if d == 12 {
        "c"
    } else if d == 13 {
        "d"
    } else if d == 14 {
        "e"
    } else {
        "f"
    };
    proof {
        assert(r@ =~= seq![spec_hex_digit(d as nat)]);
    }
    r
}

/// Renders `w` as its eight hexadecimal digits.
pub fn hex32_string(w: u32) -> (r: String)
    ensures
        r@ == spec_hex32(w as nat),
{
    let mut s = String::new();
    s.append(hex_digit_str(w / 0x1000_0000 % 16));
    s.append(hex_digit_str(w / 0x100_0000 % 16));
    s.append(hex_digit_str(w / 0x10_0000 % 16));
    s.append(hex_digit_str(w / 0x1_0000 % 16));
    s.append(hex_digit_str(w / 0x1000 % 16));
    s.append(hex_digit_str(w / 0x100 % 16));
    s.append(hex_digit_str(w / 0x10 % 16));
    s.append(hex_digit_str(w % 16));
    proof {
        assert(s@ =~= spec_hex32(w as nat));
    }
    s
}

/// Renders one dump row for `words`.
pub fn heap_row(words: &[u32]) -> (r: String)
    ensures
        r@ == spec_row_chars(words@),
{
    let mut s = String::new();
    s.append(" ");
    proof {
        reveal_strlit(" ");
        assert(words@.take(0) =~= Seq::<u32>::empty());
        assert(s@ =~= spec_row_chars(words@.take(0)));
    }
    let mut i: usize = 0;
    while i < words.len()
        invariant
            i <= words@.len(),
            s@ == spec_row_chars(words@.take(i as int)),
        decreases words@.len() - i,
    {
        let hex = hex32_string(words[i]);
        s.append(" ");
        s.append(hex.as_str());
        i = i + 1;
        proof {
            reveal_strlit(" ");
            assert(words@.take(i as int).drop_last() =~= words@.take(i as int - 1));
            assert(words@.take(i as int).last() == words@[i as int - 1]);
            assert(s@ =~= spec_row_chars(words@.take(i as int)));
        }
    }
    proof {
        assert(words@.take(words@.len() as int) =~= words@);
    }
    s
}

/// A dump of `8 * q + t` words, with a final row of `t` words, has
/// `q + 1` rows.
proof fn lemma_row_count(len: int, q: int, t: int)
    requires
        len == (WORDS_PER_ROW as int) * q + t,
        1 <= t <= WORDS_PER_ROW,
    ensures
        (len + WORDS_PER_ROW - 1) / (WORDS_PER_ROW as int) == q + 1,
{
    assert(len + WORDS_PER_ROW - 1 == (WORDS_PER_ROW as int) * (q + 1) + (t - 1));
    vstd::arithmetic::div_mod::lemma_div_multiples_vanish_fancy(
        q + 1,
        t - 1,
        WORDS_PER_ROW as int,
    );
}

/// Renders the whole dump: the words in rows of eight.
pub fn dump_rows(words: &Vec<u32>) -> (r: Vec<String>)
    ensures
        r@.len() == (words@.len() + WORDS_PER_ROW - 1) / (WORDS_PER_ROW as int),
        forall|i: int| 0 <= i < r@.len() ==> (#[trigger] r@[i])@ == spec_row_chars(
            spec_row_words(words@, i),
        ),
{
    let mut r: Vec<String> = Vec::new();
    let total: usize = words.len();
    let mut start: usize = 0;
    while start < total
        invariant
            total == words@.len(),
            start <= words@.len(),
            words@.len() <= usize::MAX,
            r@.len() * (WORDS_PER_ROW as int) == start as int,
            forall|i: int| 0 <= i < r@.len() ==> (#[trigger] r@[i])@ == spec_row_chars(
                spec_row_words(words@, i),
            ),
        decreases words@.len() - start,
    {
        let end: usize = if total - start < WORDS_PER_ROW {
            total
        } else {
            start + WORDS_PER_ROW
        };
        let row_words = vstd::slice::slice_subrange(words.as_slice(), start, end);
        let row = heap_row(row_words);
        proof {
            assert(row_words@ =~= spec_row_words(words@, r@.len() as int));
        }
        r.push(row);
        if end == total {
            proof {
                lemma_row_count(
                    words@.len() as int,
                    r@.len() - 1,
                    words@.len() - (start as int),
                );
            }
            return r;
        }
        start = end;
    }
    proof {
        if words@.len() > 0 {
            lemma_row_count(words@.len() as int, r@.len() - 1, WORDS_PER_ROW as int);
        }
    }
    r
}

} // verus!

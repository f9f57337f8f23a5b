//! The text form of integers used in the keys of a saved sculpt map: a key is
//! written as `"x,y"` with both coordinates in decimal, as Rust's `Display`
//! for `i32` writes them, and read back as Rust's `str::parse::<i32>` reads
//! them.
use vstd::prelude::*;

verus! {

/// The character of a decimal digit.
pub open spec fn digit_char(d: nat) -> char {
    (d + 48) as char
}

/// Whether `c` is an ASCII decimal digit.
pub open spec fn is_digit(c: char) -> bool {
    '0' <= c && c <= '9'
}

/// The value of an ASCII decimal digit.
pub open spec fn digit_value(c: char) -> nat {
    (c as int - 48) as nat
}

/// Whether every character of `s` is an ASCII decimal digit.
pub open spec fn all_digits(s: Seq<char>) -> bool {
    forall|i: int| 0 <= i < s.len() ==> is_digit(#[trigger] s[i])
}

/// The number that a string of decimal digits denotes (leading zeros allowed).
pub open spec fn digits_value(s: Seq<char>) -> nat
    decreases s.len(),
{
    if s.len() == 0 {
        0
    } else {
        digits_value(s.drop_last()) * 10 + digit_value(s.last())
    }
}

/// The decimal text of a natural number, without leading zeros.
pub open spec fn nat_text(n: nat) -> Seq<char>
    decreases n,
{
    if n < 10 {
        seq![digit_char(n)]
    } else {
        nat_text(n / 10).push(digit_char(n % 10))
    }
}

/// The decimal text of an integer, as `Display` writes an `i32`.
pub open spec fn int_text(n: int) -> Seq<char> {
    if n < 0 {
        seq!['-'] + nat_text((-n) as nat)
    } else {
        nat_text(n as nat)
    }
}

/// What `str::parse::<i32>` returns for `s`: an optional sign (`+` or `-`)
/// followed by one or more decimal digits whose value fits in an `i32`.
pub open spec fn parse_i32_text(s: Seq<char>) -> Option<i32> {
    let negative = s.len() > 0 && s[0] == '-';
    let signed = s.len() > 0 && (s[0] == '-' || s[0] == '+');
    let digits = if signed { s.drop_first() } else { s };
    if digits.len() == 0 || !all_digits(digits) {
        None
    } else {
        let value: int = if negative { -(digits_value(digits) as int) } else { digits_value(digits) as int };
        if i32::MIN <= value <= i32::MAX { Some(value as i32) } else { None }
    }
}

/// The decimal text of a number is a non-empty run of digits that reads back as the number.
pub proof fn lemma_nat_text_digits(n: nat)
    ensures
        nat_text(n).len() > 0,
        all_digits(nat_text(n)),
        digits_value(nat_text(n)) == n,
    decreases n,
{
    if n < 10 {
        assert(nat_text(n).drop_last() =~= Seq::<char>::empty());
        assert(digit_value(digit_char(n)) == n);
        assert(digits_value(nat_text(n).drop_last()) == 0);
    } else {
        lemma_nat_text_digits(n / 10);
        let t = nat_text(n);
        assert(t.drop_last() =~= nat_text(n / 10));
        assert(digit_value(digit_char(n % 10)) == n % 10);
        assert(t.last() == digit_char(n % 10));
        assert((n / 10) * 10 + n % 10 == n) by (nonlinear_arith);
    }
}

/// A longer prefix of a digit run reads as at least as large a number.
pub proof fn lemma_digits_value_monotonic(s: Seq<char>, k: int)
    requires
        0 <= k <= s.len(),
        all_digits(s),
    ensures
        digits_value(s.take(k)) <= digits_value(s),
    decreases s.len() - k,
{
    if k < s.len() {
        lemma_digits_value_monotonic(s, k + 1);
        assert(s.take(k + 1).drop_last() =~= s.take(k));
    } else {
        assert(s.take(k) =~= s);
    }
}

/// Reading the text that `Display` writes for an `i32` gives back the `i32`.
pub proof fn lemma_parse_int_text(n: i32)
    ensures
        parse_i32_text(int_text(n as int)) == Some(n),
{
    if n < 0 {
        let m = (-(n as int)) as nat;
        lemma_nat_text_digits(m);
        let s = int_text(n as int);
        assert(s.drop_first() =~= nat_text(m));
        assert(is_digit(nat_text(m)[0]));
    } else {
        let m = n as nat;
        lemma_nat_text_digits(m);
        assert(is_digit(nat_text(m)[0]));
    }
}

/// The text of one decimal digit.
fn digit_text(d: u64) -> (text: &'static str)
    requires
        d < 10,
    ensures
        text@ == seq![digit_char(d as nat)],
{
    if d == 0 {
        proof { reveal_strlit("0"); }
        "0"
    } else if d == 1 {
        proof { reveal_strlit("1"); }
        "1"
    } else if d == 2 {
        proof { reveal_strlit("2"); }
        "2"
    } else if d == 3 {
        proof { reveal_strlit("3"); }
        "3"
    } else if d == 4 {
        proof { reveal_strlit("4"); }
        "4"
    } else if d == 5 {
        proof { reveal_strlit("5"); }
        "5"
    } else if d == 6 {
        proof { reveal_strlit("6"); }
        "6"
    } else if d == 7 {
        proof { reveal_strlit("7"); }
        "7"
    } else if d == 8 {
        proof { reveal_strlit("8"); }
        "8"
    } else {
        proof { reveal_strlit("9"); }
        "9"
    }
}

/// Appends the decimal text of `n` to `out`.
pub fn push_nat_text(out: &mut String, n: u64)
    ensures
        final(out)@ == old(out)@ + nat_text(n as nat),
    decreases n,
{
    if n >= 10 {
        push_nat_text(out, n / 10);
    }
    out.append(digit_text(n % 10));
    proof {
        if n >= 10 {
            assert(nat_text(n as nat) == nat_text((n / 10) as nat).push(digit_char((n % 10) as nat)));
        }
    }
}

/// Appends the decimal text of `n` to `out`, as `Display` writes it.
pub fn push_i32_text(out: &mut String, n: i32)
    ensures
        final(out)@ == old(out)@ + int_text(n as int),
{
    if n < 0 {
        proof { reveal_strlit("-"); }
        out.append("-");
        let magnitude: u64 = (0i64 - n as i64) as u64;
        push_nat_text(out, magnitude);
    } else {
        push_nat_text(out, n as u64);
    }
}


/// Reads an `i32` from the characters `start..end` of `text`, as
/// `str::parse::<i32>` reads that part of the text.
pub fn parse_i32_range(text: &str, start: usize, end: usize) -> (value: Option<i32>)
    requires
        start <= end <= text@.len(),
    ensures
        value == parse_i32_text(text@.subrange(start as int, end as int)),
{
    let ghost s = text@.subrange(start as int, end as int);
    if start == end {
        return None;
    }
    let first = text.get_char(start);
    let signed = first == '-' || first == '+';
    let negative = first == '-';
    let digits_start = if signed { start + 1 } else { start };
    let ghost digits = text@.subrange(digits_start as int, end as int);
    assert(signed ==> digits =~= s.drop_first());
    assert(!signed ==> digits =~= s);
    if digits_start == end {
        return None;
    }
    let mut acc: u64 = 0;
    let mut k: usize = digits_start;
    assert(text@.subrange(digits_start as int, k as int) =~= Seq::<char>::empty());
    while k < end
        invariant
            start <= digits_start <= k <= end <= text@.len(),
            digits == text@.subrange(digits_start as int, end as int),
            s == text@.subrange(start as int, end as int),
            s.len() > 0,
            signed == (s[0] == '-' || s[0] == '+'),
            negative == (s[0] == '-'),
            digits == (if signed { s.drop_first() } else { s }),
            digits.len() > 0,
            acc == digits_value(text@.subrange(digits_start as int, k as int)),
            all_digits(text@.subrange(digits_start as int, k as int)),
            acc <= 2147483648,
        decreases end - k,
    {
        let c = text.get_char(k);
        let ghost prefix = text@.subrange(digits_start as int, k as int);
        let ghost next = text@.subrange(digits_start as int, k + 1);
        assert(next.drop_last() =~= prefix);
        assert(next =~= digits.take(k + 1 - digits_start));
        if !('0' <= c && c <= '9') {
            assert(digits[k - digits_start] == c);
            return None;
        }
        let d: u64 = (c as u64) - 48;
        acc = acc * 10 + d;
        if acc > 2147483648 {
            proof {
                if all_digits(digits) {
                    lemma_digits_value_monotonic(digits, k + 1 - digits_start);
                }
            }
            return None;
        }
        k += 1;
    }
    assert(text@.subrange(digits_start as int, k as int) =~= digits);
    if negative {
        Some((0i64 - acc as i64) as i32)
    } else if acc <= 2147483647 {
        Some(acc as i32)
    } else {
        None
    }
}

/// Whether `i` is the position of the first comma in `s`.
pub open spec fn is_first_comma(s: Seq<char>, i: int) -> bool {
    &&& 0 <= i < s.len()
    &&& s[i] == ','
    &&& forall|j: int| 0 <= j < i ==> s[j] != ','
}

/// The text of a chunk key: `"x,y"`.
pub open spec fn chunk_key_text(x: i32, y: i32) -> Seq<char> {
    int_text(x as int) + seq![','] + int_text(y as int)
}

/// The coordinates a chunk key names: the text is cut at its first comma and
/// both parts are read as `i32`s; any other text names no chunk.
pub open spec fn parse_chunk_key_text(s: Seq<char>) -> Option<(i32, i32)> {
    if exists|i: int| is_first_comma(s, i) {
        let i = choose|i: int| is_first_comma(s, i);
        match (parse_i32_text(s.take(i)), parse_i32_text(s.skip(i + 1))) {
            (Some(x), Some(y)) => Some((x, y)),
            _ => None,
        }
    } else {
        None
    }
}

/// A text has at most one first comma.
pub proof fn lemma_first_comma_unique(s: Seq<char>, i: int, j: int)
    requires
        is_first_comma(s, i),
        is_first_comma(s, j),
    ensures
        i == j,
{
}

/// Writes the key of the chunk at `(x, y)`.
pub fn format_chunk_key(x: i32, y: i32) -> (text: String)
    ensures
        text@ == chunk_key_text(x, y),
{
    let mut text = String::new();
    push_i32_text(&mut text, x);
    proof { reveal_strlit(","); }
    text.append(",");
    push_i32_text(&mut text, y);
    assert(text@ =~= chunk_key_text(x, y));
    text
}

/// Reads a chunk key back into coordinates.
pub fn parse_chunk_key(text: &str) -> (coord: Option<(i32, i32)>)
    ensures
        coord == parse_chunk_key_text(text@),
{
    let len = text.unicode_len();
    let mut i: usize = 0;
    while i < len
        invariant
            len == text@.len(),
            i <= len,
            forall|j: int| 0 <= j < i ==> text@[j] != ',',
        decreases len - i,
    {
        if text.get_char(i) == ',' {
            assert(is_first_comma(text@, i as int));
            assert(text@.take(i as int) =~= text@.subrange(0, i as int));
            assert(text@.skip(i + 1) =~= text@.subrange(i + 1, len as int));
            let x = parse_i32_range(text, 0, i);
            let y = parse_i32_range(text, i + 1, len);
            return match (x, y) {
                (Some(x), Some(y)) => Some((x, y)),
                _ => None,
            };
        }
        i += 1;
    }
    assert(!exists|j: int| is_first_comma(text@, j));
    None
}

/// Reading a written chunk key gives back the chunk's coordinates.
pub proof fn lemma_chunk_key_round_trip(x: i32, y: i32)
    ensures
        parse_chunk_key_text(chunk_key_text(x, y)) == Some((x, y)),
{
    let tx = int_text(x as int);
    let ty = int_text(y as int);
    let s = chunk_key_text(x, y);
    let i = tx.len() as int;
    lemma_int_text_has_no_comma(x as int);
    assert(s[i] == ',');
    assert(is_first_comma(s, i));
    let c = choose|c: int| is_first_comma(s, c);
    lemma_first_comma_unique(s, c, i);
    assert(s.take(i) =~= tx);
    assert(s.skip(i + 1) =~= ty);
    lemma_parse_int_text(x);
    lemma_parse_int_text(y);
}

/// The decimal text of an integer holds no comma.
pub proof fn lemma_int_text_has_no_comma(n: int)
    ensures
        forall|j: int| 0 <= j < int_text(n).len() ==> int_text(n)[j] != ',',
{
    if n < 0 {
        lemma_nat_text_digits((-n) as nat);
        assert forall|j: int| 0 <= j < int_text(n).len() implies int_text(n)[j] != ',' by {
            if j > 0 {
                assert(int_text(n)[j] == nat_text((-n) as nat)[j - 1]);
                assert(is_digit(nat_text((-n) as nat)[j - 1]));
            }
        }
    } else {
        lemma_nat_text_digits(n as nat);
        assert forall|j: int| 0 <= j < int_text(n).len() implies int_text(n)[j] != ',' by {
            assert(is_digit(nat_text(n as nat)[j]));
        }
    }
}

} // verus!

use vstd::prelude::*;

verus! {

/// Whether a character is a decimal digit.
pub open spec fn is_digit(c: char) -> bool {
    48 <= (c as int) && (c as int) <= 57
}

/// The numeric value of a decimal digit character.
pub open spec fn digit_val(c: char) -> nat {
    ((c as int) - 48) as nat
}

/// The character for one decimal digit value.
pub open spec fn digit_char(d: nat) -> char {
    if d == 0 {
        '0'
    } else if d == 1 {
        '1'
    } else if d == 2 {
        '2'
    } else if d == 3 {
        '3'
    } else if d == 4 {
        '4'
    } else if d == 5 {
        '5'
    } else if d == 6 {
        '6'
    } else if d == 7 {
        '7'
    } else if d == 8 {
        '8'
    } else {
        '9'
    }
}

/// The canonical decimal notation of a number: no sign, no leading zero
/// except for the single digit of zero itself.
pub open spec fn dec_digits(n: nat) -> Seq<char>
    decreases n,
{
    if n < 10 {
        seq![digit_char(n)]
    } else {
        dec_digits(n / 10).push(digit_char(n % 10))
    }
}

/// The numeric value of a digit sequence, most significant digit first.
pub open spec fn dec_val(s: Seq<char>) -> nat
    decreases s.len(),
{
    if s.len() == 0 {
        0
    } else {
        dec_val(s.drop_last()) * 10 + digit_val(s.last())
    }
}

/// Whether every character of a sequence is a decimal digit.
pub open spec fn all_digits(s: Seq<char>) -> bool {
    forall|k: int| 0 <= k < s.len() ==> is_digit(s[k])
}

/// Canonical notation consists of digits only, has at least one of them,
/// and reading it back gives the number it was written from.
pub proof fn lemma_dec_digits_form(n: nat)
    ensures
        dec_digits(n).len() >= 1,
        all_digits(dec_digits(n)),
        dec_val(dec_digits(n)) == n,
        dec_digits(n)[0] == '0' ==> n == 0,
        n < 10 ==> dec_digits(n).len() == 1,
    decreases n,
{
    if n < 10 {
        let s = dec_digits(n);
        assert(s =~= seq![digit_char(n)]);
        assert(s.drop_last() =~= Seq::<char>::empty());
        assert(dec_val(Seq::<char>::empty()) == 0);
        assert(s.last() == digit_char(n));
        assert(digit_val(digit_char(n)) == n);
    } else {
        lemma_dec_digits_form(n / 10);
        let p = dec_digits(n / 10);
        let s = dec_digits(n);
        assert(s =~= p.push(digit_char(n % 10)));
        assert(s.drop_last() =~= p);
        assert(s.last() == digit_char(n % 10));
        assert(digit_val(digit_char(n % 10)) == n % 10);
        assert(dec_val(s) == (n / 10) * 10 + n % 10);
        assert((n / 10) * 10 + n % 10 == n);
        assert(s[0] == p[0]);
    }
}

/// A nonempty digit sequence whose first digit is not zero denotes a
/// positive number.
pub proof fn lemma_dec_val_pos(s: Seq<char>)
    requires
        s.len() >= 1,
        all_digits(s),
        s[0] != '0',
    ensures
        dec_val(s) >= 1,
    decreases s.len(),
{
    if s.len() == 1 {
        assert(is_digit(s[0]));
        assert(s.last() == s[0]);
        assert((s[0] as int) != ('0' as int)) by {
            if s[0] as int == 48 {
                assert(s[0] == '0');
            }
        }
        assert(digit_val(s[0]) >= 1);
    } else {
        let p = s.drop_last();
        assert(p[0] == s[0]);
        lemma_dec_val_pos(p);
    }
}

/// A digit character is recovered from its value.
proof fn lemma_digit_char_of_val(c: char)
    requires
        is_digit(c),
    ensures
        digit_char(digit_val(c)) == c,
{
    let v = c as int;
    if v == 48 {
        assert(c == '0');
    } else if v == 49 {
        assert(c == '1');
    } else if v == 50 {
        assert(c == '2');
    } else if v == 51 {
        assert(c == '3');
    } else if v == 52 {
        assert(c == '4');
    } else if v == 53 {
        assert(c == '5');
    } else if v == 54 {
        assert(c == '6');
    } else if v == 55 {
        assert(c == '7');
    } else if v == 56 {
        assert(c == '8');
    } else {
        assert(c == '9');
    }
}

/// A nonempty digit sequence without a leading zero is exactly the
/// canonical notation of its value.
pub proof fn lemma_dec_val_canon(s: Seq<char>)
    requires
        s.len() >= 1,
        all_digits(s),
        s[0] == '0' ==> s.len() == 1,
    ensures
        s == dec_digits(dec_val(s)),
    decreases s.len(),
{
    if s.len() == 1 {
        assert(s.drop_last() =~= Seq::<char>::empty());
        assert(dec_val(Seq::<char>::empty()) == 0);
        assert(s.last() == s[0]);
        assert(dec_val(s) == digit_val(s[0]));
        assert(digit_val(s[0]) < 10);
        lemma_digit_char_of_val(s[0]);
        assert(s =~= seq![digit_char(dec_val(s))]);
    } else {
        let p = s.drop_last();
        let d = digit_val(s.last());
        assert(p[0] == s[0]);
        assert(p[0] != '0') by {
            if s[0] as int == 48 {
                assert(s[0] == '0');
            }
        }
        lemma_dec_val_pos(p);
        lemma_dec_val_canon(p);
        let n = dec_val(s);
        let m = dec_val(p);
        assert(n == m * 10 + d);
        assert(d < 10);
        assert(m >= 1);
        assert(n >= 10);
        assert(n / 10 == m && n % 10 == d) by {
            assert(n == 10 * m + d);
        }
        assert(dec_digits(n) == dec_digits(m).push(digit_char(d)));
        lemma_digit_char_of_val(s.last());
        assert(s =~= p.push(s.last()));
    }
}

/// One decimal digit as a string slice.
fn digit_str(d: u16) -> (r: &'static str)
    requires
        d < 10,
    ensures
        r@ =~= seq![digit_char(d as nat)],
{
    proof {
        reveal_strlit("0");
        reveal_strlit("1");
        reveal_strlit("2");
        reveal_strlit("3");
        reveal_strlit("4");
        reveal_strlit("5");
        reveal_strlit("6");
        reveal_strlit("7");
        reveal_strlit("8");
        reveal_strlit("9");
    }
    if d == 0 {
        "0"
    } else if d == 1 {
        "1"
    } else if d == 2 {
        "2"
    } else if d == 3 {
        "3"
    } else if d == 4 {
        "4"
    } else if d == 5 {
        "5"
    } else if d == 6 {
        "6"
    } else if d == 7 {
        "7"
    } else if d == 8 {
        "8"
    } else {
        "9"
    }
}

/// Writes a number in canonical decimal notation.
pub fn u16_to_dec(n: u16) -> (r: String)
    ensures
        r@ == dec_digits(n as nat),
    decreases n,
{
    if n < 10 {
        let r = String::from_str(digit_str(n));
        assert(r@ =~= dec_digits(n as nat));
        r
    } else {
        let mut r = u16_to_dec(n / 10);
        r.append(digit_str(n % 10));
        assert(r@ =~= dec_digits(n as nat));
        r
    }
}

/// Whether a fixed literal stands at position `i` of `s`.
pub open spec fn lit_at(s: Seq<char>, i: int, lit: Seq<char>) -> bool {
    i + lit.len() <= s.len() && s.subrange(i, i + lit.len()) == lit
}

/// Scans a fixed literal at position `i`; on a match, returns the position
/// just past it.
pub fn scan_lit(s: &str, i: usize, lit: &str) -> (r: Option<usize>)
    requires
        i <= s@.len(),
    ensures
        match r {
            Some(j) => j == i + lit@.len() && lit_at(s@, i as int, lit@),
            None => !lit_at(s@, i as int, lit@),
        },
{
    let sl = s.unicode_len();
    let ll = lit.unicode_len();
    if ll > sl - i {
        assert(!lit_at(s@, i as int, lit@));
        return None;
    }
    let mut k: usize = 0;
    while k < ll
        invariant
            0 <= k <= ll,
            i + ll <= sl,
            sl == s@.len(),
            ll == lit@.len(),
            forall|m: int| 0 <= m < k ==> s@[i + m] == lit@[m],
        decreases ll - k,
    {
        if s.get_char(i + k) != lit.get_char(k) {
            assert(!lit_at(s@, i as int, lit@)) by {
                if lit_at(s@, i as int, lit@) {
                    assert(s@.subrange(i as int, i + lit@.len())[k as int] == s@[i + k]);
                }
            }
            return None;
        }
        k += 1;
    }
    assert(s@.subrange(i as int, i + lit@.len()) =~= lit@);
    Some(i + ll)
}

/// Takes the characters from position `i` up to the first occurrence of
/// `stop`, which must be present; returns them with the position of `stop`.
pub fn take_until(s: &str, i: usize, stop: char) -> (r: Option<(String, usize)>)
    requires
        i <= s@.len(),
    ensures
        match r {
            Some(tj) => i <= tj.1 < s@.len() && s@[tj.1 as int] == stop && tj.0@
                == s@.subrange(i as int, tj.1 as int) && (forall|k: int|
                i <= k < tj.1 ==> s@[k] != stop),
            None => forall|k: int| i <= k < s@.len() ==> s@[k] != stop,
        },
{
    let sl = s.unicode_len();
    let mut j: usize = i;
    while j < sl
        invariant
            i <= j <= sl,
            sl == s@.len(),
            forall|k: int| i <= k < j ==> s@[k] != stop,
        decreases sl - j,
    {
        if s.get_char(j) == stop {
            let t = s.substring_char(i, j).to_owned();
            return Some((t, j));
        }
        j += 1;
    }
    None
}

/// Whether `(n, j)` is the one reading of a canonical decimal number that
/// starts at position `i` and runs to the first non-digit.
pub open spec fn canon_u16_at(s: Seq<char>, i: int, n: u16, j: int) -> bool {
    0 <= i < j <= s.len() && s.subrange(i, j) == dec_digits(n as nat) && (j == s.len()
        || !is_digit(s[j]))
}

/// Two readings of a canonical number at the same position agree.
pub proof fn lemma_canon_u16_unique(s: Seq<char>, i: int, n1: u16, j1: int, n2: u16, j2: int)
    requires
        canon_u16_at(s, i, n1, j1),
        canon_u16_at(s, i, n2, j2),
    ensures
        n1 == n2,
        j1 == j2,
{
    lemma_dec_digits_form(n1 as nat);
    lemma_dec_digits_form(n2 as nat);
    if j1 < j2 {
        assert(s.subrange(i, j2).len() == j2 - i);
        assert(dec_digits(n2 as nat).len() == j2 - i);
        assert(is_digit(dec_digits(n2 as nat)[j1 - i]));
        assert(s.subrange(i, j2)[j1 - i] == s[j1]);
        assert(false);
    }
    if j2 < j1 {
        assert(s.subrange(i, j1).len() == j1 - i);
        assert(dec_digits(n1 as nat).len() == j1 - i);
        assert(is_digit(dec_digits(n1 as nat)[j2 - i]));
        assert(s.subrange(i, j1)[j2 - i] == s[j2]);
        assert(false);
    }
    assert(dec_val(dec_digits(n1 as nat)) == dec_val(dec_digits(n2 as nat)));
}

/// Reads a canonical decimal number in range at position `i`: one or more
/// digits, no leading zero, value at most 65535, ending at the first
/// non-digit.
pub fn parse_u16(s: &str, i: usize) -> (r: Option<(u16, usize)>)
    requires
        i <= s@.len(),
    ensures
        match r {
            Some(nj) => canon_u16_at(s@, i as int, nj.0, nj.1 as int),
            None => forall|n: u16, j: int| !canon_u16_at(s@, i as int, n, j),
        },
{
    let sl = s.unicode_len();
    if i == sl || !is_digit_exec(s.get_char(i)) {
        proof {
            assert forall|n: u16, j: int| !canon_u16_at(s@, i as int, n, j) by {
                if canon_u16_at(s@, i as int, n, j) {
                    lemma_dec_digits_form(n as nat);
                    assert(s@[i as int] == s@.subrange(i as int, j)[0]);
                    assert(is_digit(s@[i as int]));
                }
            }
        }
        return None;
    }
    let mut j: usize = i;
    let mut acc: u32 = 0;
    let mut big = false;
    while j < sl && is_digit_exec(s.get_char(j))
        invariant
            i <= j <= sl,
            sl == s@.len(),
            i < sl,
            is_digit(s@[i as int]),
            forall|k: int| i <= k < j ==> is_digit(s@[k]),
            j == i ==> acc == 0 && !big,
            j > i && !big ==> acc == dec_val(s@.subrange(i as int, j as int)) && acc <= 65535,
            j > i && big ==> dec_val(s@.subrange(i as int, j as int)) > 65535,
        decreases sl - j,
    {
        let c = s.get_char(j);
        let d: u32 = (c as u32) - 48;
        proof {
            let sub1 = s@.subrange(i as int, j + 1);
            let sub0 = s@.subrange(i as int, j as int);
            assert(sub1.drop_last() =~= sub0);
            assert(sub1.last() == s@[j as int]);
            assert(dec_val(sub1) == dec_val(sub0) * 10 + digit_val(s@[j as int]));
        }
        if big {
            proof {
                assert(dec_val(s@.subrange(i as int, j + 1)) > 65535);
            }
        } else {
            acc = acc * 10 + d;
            if acc > 65535 {
                big = true;
            }
        }
        j += 1;
    }
    assert(j > i);
    let ghost sub = s@.subrange(i as int, j as int);
    proof {
        assert(j == s@.len() || !is_digit(s@[j as int]));
    }
    if big {
        proof {
            assert forall|n: u16, jc: int| !canon_u16_at(s@, i as int, n, jc) by {
                if canon_u16_at(s@, i as int, n, jc) {
                    lemma_canon_fixes_end(s@, i as int, n, jc, j as int);
                    lemma_dec_digits_form(n as nat);
                    assert(dec_val(sub) == n as nat);
                }
            }
        }
        return None;
    }
    let first = s.get_char(i);
    if first == '0' && j > i + 1 {
        proof {
            assert forall|n: u16, jc: int| !canon_u16_at(s@, i as int, n, jc) by {
                if canon_u16_at(s@, i as int, n, jc) {
                    lemma_canon_fixes_end(s@, i as int, n, jc, j as int);
                    lemma_dec_digits_form(n as nat);
                    assert(sub[0] == s@[i as int]);
                    assert(n == 0);
                    assert(sub.len() == 1);
                }
            }
        }
        return None;
    }
    proof {
        assert(sub[0] == s@[i as int]);
        assert(sub[0] == '0' ==> sub.len() == 1) by {
            if sub[0] == '0' {
                assert(s@[i as int] as int == '0' as int);
                assert(!(s@[i as int] != '0' && 48 == s@[i as int] as int));
                assert(j == i + 1);
            }
        }
        lemma_dec_val_canon(sub);
    }
    Some((acc as u16, j))
}

/// The end of a canonical reading is the first non-digit after its start.
proof fn lemma_canon_fixes_end(s: Seq<char>, i: int, n: u16, jc: int, j: int)
    requires
        canon_u16_at(s, i, n, jc),
        i < j <= s.len(),
        forall|k: int| i <= k < j ==> is_digit(s[k]),
        j == s.len() || !is_digit(s[j]),
    ensures
        jc == j,
        dec_val(s.subrange(i, j)) == n as nat,
{
    lemma_dec_digits_form(n as nat);
    if jc < j {
        assert(is_digit(s[jc]));
        assert(false);
    }
    if j < jc {
        assert(s.subrange(i, jc).len() == jc - i);
        assert(dec_digits(n as nat).len() == jc - i);
        assert(is_digit(dec_digits(n as nat)[j - i]));
        assert(s.subrange(i, jc)[j - i] == s[j]);
        assert(false);
    }
}

/// Whether a character is a decimal digit.
pub fn is_digit_exec(c: char) -> (r: bool)
    ensures
        r == is_digit(c),
{
    let u = c as u32;
    48 <= u && u <= 57
}

/// Splitting a concatenation: the right part is the tail subrange, and every
/// subrange inside the left part reads the same on the whole.
pub proof fn lemma_concat_pieces(x: Seq<char>, y: Seq<char>, s: Seq<char>)
    requires
        s == x + y,
    ensures
        s.len() == x.len() + y.len(),
        s.subrange(x.len() as int, s.len() as int) == y,
        forall|a: int, b: int|
            0 <= a <= b <= x.len() ==> #[trigger] s.subrange(a, b) == x.subrange(a, b),
{
    assert(s.subrange(x.len() as int, s.len() as int) =~= y);
    assert forall|a: int, b: int|
        0 <= a <= b <= x.len() implies #[trigger] s.subrange(a, b) == x.subrange(a, b) by {
        assert(s.subrange(a, b) =~= x.subrange(a, b));
    }
}

} // verus!

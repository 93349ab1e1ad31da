//! Text helpers: decimal rendering, comparison, and splitting of strings.
use vstd::prelude::*;

verus! {

/// The character of a decimal digit.
pub open spec fn digit(d: nat) -> char {
    if d == 0 {
        '0'
    } else if d == 1 {
        '1'
    } else if d == 2 {
        '2'
    } else if d == 3 {
        '3'
    } else if d == 4 {
        '4'
    } else if d == 5 {
        '5'
    } else if d == 6 {
        '6'
    } else if d == 7 {
        '7'
    } else if d == 8 {
        '8'
    } else {
        '9'
    }
}

/// The decimal numeral of `n`, without leading zeros.
pub open spec fn dec(n: nat) -> Seq<char>
    decreases n,
{
    if n < 10 {
        seq![digit(n)]
    } else {
        dec(n / 10).push(digit(n % 10))
    }
}

/// The decimal numeral of `i`, with a minus sign where it is negative.
pub open spec fn dec_int(i: int) -> Seq<char> {
    if i < 0 {
        seq!['-'] + dec((-i) as nat)
    } else {
        dec(i as nat)
    }
}

fn append_digit(s: &mut String, d: u64)
    requires
        d < 10,
    ensures
        final(s)@ == old(s)@.push(digit(d as nat)),
{
    proof {
        reveal_strlit("0");
        reveal_strlit("1");
        reveal_strlit("2");
        reveal_strlit("3");
        reveal_strlit("4");
        reveal_strlit("5");
        reveal_strlit("6");
        reveal_strlit("7");
        reveal_strlit("8");
        reveal_strlit("9");
    }
    let t: &str = if d == 0 {
        "0"
    } else if d == 1 {
        "1"
    } else if d == 2 {
        "2"
    } else if d == 3 {
        "3"
    } else if d == 4 {
        "4"
    } else if d == 5 {
        "5"
    } else if d == 6 {
        "6"
    } else if d == 7 {
        "7"
    } else if d == 8 {
        "8"
    } else {
        "9"
    };
    assert(t@ =~= seq![digit(d as nat)]);
    s.append(t);
    assert(s@ =~= old(s)@.push(digit(d as nat)));
}

/// Appends the decimal numeral of `n`.
pub fn append_u64(s: &mut String, n: u64)
    ensures
        final(s)@ == old(s)@ + dec(n as nat),
    decreases n,
{
    if n < 10 {
        append_digit(s, n);
        assert(s@ =~= old(s)@ + dec(n as nat));
    } else {
        append_u64(s, n / 10);
        append_digit(s, n % 10);
        assert(s@ =~= old(s)@ + dec(n as nat));
    }
}

/// Appends the decimal numeral of `n`, sign included.
pub fn append_i64(s: &mut String, n: i64)
    ensures
        final(s)@ == old(s)@ + dec_int(n as int),
{
    if n >= 0 {
        append_u64(s, n as u64);
    } else {
        proof {
            reveal_strlit("-");
        }
        s.append("-");
        // The magnitude of i64::MIN does not fit in an i64.
        let m: u64 = (-(n as i128)) as u64;
        append_u64(s, m);
        assert("-"@ =~= seq!['-']);
        assert(s@ =~= old(s)@ + (seq!['-'] + dec(m as nat)));
    }
}

/// Whether two strings hold the same characters.
pub fn str_eq(a: &str, b: &str) -> (r: bool)
    ensures
        r == (a@ == b@),
{
    let n: usize = a.unicode_len();
    if n != b.unicode_len() {
        return false;
    }
    let mut i: usize = 0;
    while i < n
        invariant
            n == a@.len(),
            n == b@.len(),
            i <= n,
            forall|k: int| 0 <= k < i ==> a@[k] == b@[k],
        decreases n - i,
    {
        if a.get_char(i) != b.get_char(i) {
            return false;
        }
        i = i + 1;
    }
    assert(a@ =~= b@);
    true
}

/// The characters with the Unicode property White_Space.
pub open spec fn is_white(c: char) -> bool {
    let u = c as int;
    ||| 9 <= u <= 13
    ||| u == 32
    ||| u == 0x85
    ||| u == 0xa0
    ||| u == 0x1680
    ||| 0x2000 <= u <= 0x200a
    ||| u == 0x2028
    ||| u == 0x2029
    ||| u == 0x202f
    ||| u == 0x205f
    ||| u == 0x3000
}

/// Whether `c` is white space.
pub fn char_is_white(c: char) -> (r: bool)
    ensures
        r == is_white(c),
{
    let u: u32 = c as u32;
    (9 <= u && u <= 13) || u == 32 || u == 0x85 || u == 0xa0 || u == 0x1680 || (0x2000 <= u && u
        <= 0x200a) || u == 0x2028 || u == 0x2029 || u == 0x202f || u == 0x205f || u == 0x3000
}

/// How many leading characters of `s` are white space.
pub open spec fn white_prefix(s: Seq<char>) -> nat
    decreases s.len(),
{
    if s.len() > 0 && is_white(s[0]) {
        1 + white_prefix(s.skip(1))
    } else {
        0
    }
}

/// How many trailing characters of `s` are white space.
pub open spec fn white_suffix(s: Seq<char>) -> nat
    decreases s.len(),
{
    if s.len() > 0 && is_white(s.last()) {
        1 + white_suffix(s.drop_last())
    } else {
        0
    }
}

/// `s` without leading and trailing white space.
pub open spec fn trimmed(s: Seq<char>) -> Seq<char> {
    let t = s.skip(white_prefix(s) as int);
    t.take(t.len() - white_suffix(t))
}

proof fn lemma_white_prefix(s: Seq<char>)
    ensures
        white_prefix(s) <= s.len(),
    decreases s.len(),
{
    if s.len() > 0 && is_white(s[0]) {
        lemma_white_prefix(s.skip(1));
    }
}

proof fn lemma_white_suffix(s: Seq<char>)
    ensures
        white_suffix(s) <= s.len(),
    decreases s.len(),
{
    if s.len() > 0 && is_white(s.last()) {
        lemma_white_suffix(s.drop_last());
    }
}

/// `s` without leading and trailing white space.
pub fn trim(s: &str) -> (r: &str)
    ensures
        r@ == trimmed(s@),
{
    let n: usize = s.unicode_len();
    let mut a: usize = 0;
    proof {
        lemma_white_prefix(s@);
        assert(s@.skip(0) =~= s@);
    }
    while a < n && char_is_white(s.get_char(a))
        invariant
            a <= n,
            n == s@.len(),
            white_prefix(s@) == a + white_prefix(s@.skip(a as int)),
        decreases n - a,
    {
        proof {
            assert(s@.skip(a as int).skip(1) =~= s@.skip(a + 1));
        }
        a = a + 1;
    }
    let ghost t = s@.skip(a as int);
    let mut b: usize = n;
    proof {
        assert(white_prefix(t) == 0);
        lemma_white_suffix(t);
        assert(t.take(t.len() as int) =~= t);
    }
    while b > a && char_is_white(s.get_char(b - 1))
        invariant
            a <= b <= n,
            n == s@.len(),
            t == s@.skip(a as int),
            white_suffix(t) == (n - b) + white_suffix(t.take(b - a)),
        decreases b - a,
    {
        proof {
            let u = t.take(b - a);
            assert(u.last() == s@[b - 1]);
            assert(u.drop_last() =~= t.take(b - 1 - a));
        }
        b = b - 1;
    }
    proof {
        if b > a {
            assert(t.take(b - a).last() == s@[b - 1]);
        }
        assert(white_suffix(t.take(b - a)) == 0);
        assert(s@.subrange(a as int, b as int) =~= t.take(b - a));
    }
    s.substring_char(a, b)
}

/// Whether `c` is an ASCII decimal digit.
pub open spec fn is_digit(c: char) -> bool {
    48 <= c as int <= 57
}

/// Whether every character is an ASCII decimal digit.
pub open spec fn all_digits(s: Seq<char>) -> bool {
    forall|i: int| 0 <= i < s.len() ==> is_digit(#[trigger] s[i])
}

/// The number that a sequence of digits denotes.
pub open spec fn digits_value(s: Seq<char>) -> nat
    decreases s.len(),
{
    if s.len() == 0 {
        0
    } else {
        digits_value(s.drop_last()) * 10 + (s.last() as int - 48) as nat
    }
}

/// The number that a nonempty sequence of digits denotes.
pub open spec fn parse_nat(s: Seq<char>) -> Option<nat> {
    if s.len() > 0 && all_digits(s) {
        Some(digits_value(s))
    } else {
        None
    }
}

/// The number that digits with an optional `+` in front denote.
pub open spec fn parse_unsigned(s: Seq<char>) -> Option<nat> {
    if s.len() > 0 && s[0] == '+' {
        parse_nat(s.skip(1))
    } else {
        parse_nat(s)
    }
}

/// The number that digits with an optional sign in front denote.
pub open spec fn parse_signed(s: Seq<char>) -> Option<int> {
    if s.len() > 0 && s[0] == '-' {
        match parse_nat(s.skip(1)) {
            Some(n) => Some(-(n as int)),
            None => None,
        }
    } else {
        match parse_unsigned(s) {
            Some(n) => Some(n as int),
            None => None,
        }
    }
}

/// The value of the digits of `s` from `from` on: none where there is no digit,
/// another character, or a value beyond `u64`.
fn parse_digits(s: &str, from: usize) -> (r: Option<u64>)
    requires
        from <= s@.len(),
    ensures
        r == (match parse_nat(s@.skip(from as int)) {
            Some(n) => if n <= u64::MAX { Some(n as u64) } else { None },
            None => None,
        }),
{
    let n: usize = s.unicode_len();
    let ghost t = s@.skip(from as int);
    if from == n {
        assert(t.len() == 0);
        return None;
    }
    let mut i: usize = from;
    let mut v: u64 = 0;
    let mut over: bool = false;
    proof {
        assert(t.take(0) =~= Seq::<char>::empty());
    }
    while i < n
        invariant
            from <= i <= n,
            n == s@.len(),
            t == s@.skip(from as int),
            forall|k: int| 0 <= k < i - from ==> is_digit(#[trigger] t[k]),
            over ==> digits_value(t.take(i - from)) > u64::MAX,
            !over ==> v == digits_value(t.take(i - from)),
        decreases n - i,
    {
        let c: char = s.get_char(i);
        let u: u32 = c as u32;
        proof {
            assert(t[i - from] == c);
        }
        if u < 48 || u > 57 {
            return None;
        }
        let d: u64 = (u - 48) as u64;
        proof {
            assert(t.take(i + 1 - from).drop_last() =~= t.take(i - from));
            assert(t.take(i + 1 - from).last() == c);
        }
        if !over {
            if v > (u64::MAX - d) / 10 {
                over = true;
            } else {
                v = v * 10 + d;
            }
        }
        i = i + 1;
    }
    proof {
        assert(t.take(n - from) =~= t);
        assert(all_digits(t));
    }
    if over {
        None
    } else {
        Some(v)
    }
}

/// The unsigned number that `s` spells, where it spells one and it fits.
pub fn parse_u64(s: &str) -> (r: Option<u64>)
    ensures
        r == (match parse_unsigned(s@) {
            Some(n) => if n <= u64::MAX { Some(n as u64) } else { None },
            None => None,
        }),
{
    let n: usize = s.unicode_len();
    if n > 0 && s.get_char(0) == '+' {
        parse_digits(s, 1)
    } else {
        assert(s@.skip(0) =~= s@);
        parse_digits(s, 0)
    }
}

/// The signed number that `s` spells, where it spells one and it fits.
pub fn parse_i64(s: &str) -> (r: Option<i64>)
    ensures
        r == (match parse_signed(s@) {
            Some(i) => if i64::MIN <= i <= i64::MAX { Some(i as i64) } else { None },
            None => None,
        }),
{
    let n: usize = s.unicode_len();
    if n > 0 && s.get_char(0) == '-' {
        match parse_digits(s, 1) {
            Some(m) => {
                if m <= 0x8000_0000_0000_0000 {
                    Some((-(m as i128)) as i64)
                } else {
                    None
                }
            },
            None => None,
        }
    } else {
        match parse_u64(s) {
            Some(m) => {
                if m <= 0x7fff_ffff_ffff_ffff {
                    Some(m as i64)
                } else {
                    None
                }
            },
            None => None,
        }
    }
}

/// The signed number that `s` spells, where it spells one and it fits.
pub fn parse_i32(s: &str) -> (r: Option<i32>)
    ensures
        r == (match parse_signed(s@) {
            Some(i) => if i32::MIN <= i <= i32::MAX { Some(i as i32) } else { None },
            None => None,
        }),
{
    match parse_i64(s) {
        Some(v) => {
            if v >= -0x8000_0000 && v <= 0x7fff_ffff {
                Some(v as i32)
            } else {
                None
            }
        },
        None => None,
    }
}

proof fn lemma_dec(n: nat)
    ensures
        dec(n).len() > 0,
        all_digits(dec(n)),
        digits_value(dec(n)) == n,
    decreases n,
{
    reveal_with_fuel(digits_value, 2);
    if n >= 10 {
        lemma_dec(n / 10);
        assert(dec(n).drop_last() =~= dec(n / 10));
        assert forall|i: int| 0 <= i < dec(n).len() implies is_digit(#[trigger] dec(n)[i]) by {
            if i < dec(n / 10).len() {
                assert(dec(n)[i] == dec(n / 10)[i]);
            }
        }
    } else {
        assert(dec(n).drop_last() =~= Seq::<char>::empty());
    }
}

/// A numeral reads back as the number that it was written for.
pub proof fn law_numerals_read_back(n: nat)
    ensures
        parse_unsigned(dec(n)) == Some(n),
        parse_signed(dec_int(n as int)) == Some(n as int),
        parse_signed(dec_int(-(n as int))) == Some(-(n as int)),
        dec(n).len() > 0,
        all_digits(dec(n)),
{
    lemma_dec(n);
    assert(is_digit(dec(n)[0]));
    if n > 0 {
        let s = dec_int(-(n as int));
        assert(s.skip(1) =~= dec(n));
    }
}

/// Numerals of different numbers differ, and none starts with a zero but the
/// one of 0.
pub proof fn law_numerals_are_plain(n: nat)
    ensures
        n > 0 ==> dec(n)[0] != '0',
        n == 0 ==> dec(n) =~= seq!['0'],
        n < 10 <==> dec(n).len() == 1,
        n >= 10 ==> dec(n).len() == dec(n / 10).len() + 1,
    decreases n,
{
    lemma_dec(n);
    if n >= 10 {
        law_numerals_are_plain(n / 10);
        lemma_dec(n / 10);
        assert(dec(n)[0] == dec(n / 10)[0]);
    }
}

/// Whether every character is white space.
pub open spec fn all_white(s: Seq<char>) -> bool {
    forall|i: int| 0 <= i < s.len() ==> is_white(#[trigger] s[i])
}

proof fn lemma_prefix_of(a: Seq<char>, s: Seq<char>)
    requires
        all_white(a),
        s.len() > 0 ==> !is_white(s[0]),
    ensures
        white_prefix(a + s) == a.len(),
    decreases a.len(),
{
    if a.len() > 0 {
        assert((a + s)[0] == a[0]);
        assert((a + s).skip(1) =~= a.skip(1) + s);
        lemma_prefix_of(a.skip(1), s);
    } else {
        assert(a + s =~= s);
    }
}

proof fn lemma_suffix_of(s: Seq<char>, b: Seq<char>)
    requires
        all_white(b),
        s.len() > 0 ==> !is_white(s.last()),
    ensures
        white_suffix(s + b) == b.len(),
    decreases b.len(),
{
    if b.len() > 0 {
        assert((s + b).last() == b.last());
        assert((s + b).drop_last() =~= s + b.drop_last());
        lemma_suffix_of(s, b.drop_last());
    } else {
        assert(s + b =~= s);
    }
}

/// Trimming takes off exactly the white space around a text.
pub proof fn law_trimming_takes_white_space_off(a: Seq<char>, s: Seq<char>, b: Seq<char>)
    requires
        all_white(a),
        all_white(b),
        s.len() > 0,
        !is_white(s[0]),
        !is_white(s.last()),
    ensures
        trimmed(a + s + b) == s,
{
    let t = s + b;
    assert(a + s + b =~= a + t);
    assert(t[0] == s[0]);
    lemma_prefix_of(a, t);
    assert((a + t).skip(a.len() as int) =~= t);
    lemma_suffix_of(s, b);
    assert(t.take(t.len() - b.len()) =~= s);
}

/// The usual white space is white space; digits, letters and punctuation are
/// not.
pub proof fn law_white_space(c: char)
    ensures
        c == ' ' || c == '\t' || c == '\n' || c == '\r' ==> is_white(c),
        33 <= c as int <= 126 ==> !is_white(c),
{
}

} // verus!

use vstd::prelude::*;

verus! {

/// The decimal digit character of `d`, for `d < 10`.
pub open spec fn digit_char(d: nat) -> char {
    if d == 0 { '0' } else if d == 1 { '1' } else if d == 2 { '2' } else if d == 3 { '3' }
    else if d == 4 { '4' } else if d == 5 { '5' } else if d == 6 { '6' } else if d == 7 { '7' }
    else if d == 8 { '8' } else { '9' }
}

/// The decimal text of a natural number, most significant digit first, no leading zeros.
pub open spec fn nat_text(n: nat) -> Seq<char>
    decreases n,
{
    if n < 10 {
        seq![digit_char(n)]
    } else {
        nat_text(n / 10).push(digit_char(n % 10))
    }
}

/// The decimal text of an integer: a minus sign before the digits of a negative one.
pub open spec fn int_text(i: int) -> Seq<char> {
    if i < 0 {
        seq!['-'] + nat_text((-i) as nat)
    } else {
        nat_text(i as nat)
    }
}

/// Relies on `<usize as ToString>::to_string`: `Display` of an unsigned integer is its decimal text.
#[verifier::external_body]
pub(crate) fn usize_text(n: usize) -> (r: String)
    ensures
        r@ == nat_text(n as nat),
{
    n.to_string()
}

/// Relies on `<i64 as ToString>::to_string`: `Display` of a signed integer is its decimal text.
#[verifier::external_body]
pub(crate) fn i64_text(n: i64) -> (r: String)
    ensures
        r@ == int_text(n as int),
{
    n.to_string()
}

/// The lower-case hexadecimal digit of `d`, for `d < 16`.
pub open spec fn hex_digit(d: nat) -> char {
    if d < 10 { digit_char(d) } else if d == 10 { 'a' } else if d == 11 { 'b' } else if d == 12 { 'c' }
    else if d == 13 { 'd' } else if d == 14 { 'e' } else { 'f' }
}

/// Two lower-case hexadecimal digits per byte, high half first.
pub open spec fn hex_text(b: Seq<u8>) -> Seq<char>
    decreases b.len(),
{
    if b.len() == 0 {
        Seq::empty()
    } else {
        hex_text(b.drop_last()).push(hex_digit(b.last() as nat / 16)).push(hex_digit(b.last() as nat % 16))
    }
}

/// Distinct byte strings have distinct hexadecimal texts.
pub proof fn lemma_hex_text_injective(a: Seq<u8>, b: Seq<u8>)
    requires
        hex_text(a) == hex_text(b),
    ensures
        a == b,
    decreases a.len(),
{
    lemma_hex_text_no_dot(a);
    lemma_hex_text_no_dot(b);
    if a.len() > 0 {
        let ha = hex_text(a);
        let x = a.last() as nat;
        let y = b.last() as nat;
        assert(ha[ha.len() - 2] == hex_digit(x / 16));
        assert(ha[ha.len() - 1] == hex_digit(x % 16));
        assert(hex_text(b)[ha.len() - 2] == hex_digit(y / 16));
        assert(hex_text(b)[ha.len() - 1] == hex_digit(y % 16));
        assert(x / 16 == y / 16);
        assert(x % 16 == y % 16);
        assert(hex_text(a.drop_last()) =~= ha.subrange(0, ha.len() - 2));
        assert(hex_text(b.drop_last()) =~= hex_text(b).subrange(0, ha.len() - 2));
        lemma_hex_text_injective(a.drop_last(), b.drop_last());
        assert(a =~= a.drop_last().push(a.last()));
        assert(b =~= b.drop_last().push(b.last()));
    } else {
        assert(a =~= b);
    }
}

/// `s` holds no `'.'`.
pub open spec fn no_dot(s: Seq<char>) -> bool {
    forall|i: int| 0 <= i < s.len() ==> s[i] != '.'
}

pub proof fn lemma_nat_text_no_dot(n: nat)
    ensures
        no_dot(nat_text(n)),
        nat_text(n).len() > 0,
        nat_text(n)[0] != '-',
    decreases n,
{
    if n >= 10 {
        lemma_nat_text_no_dot(n / 10);
    }
}

pub proof fn lemma_int_text_no_dot(i: int)
    ensures
        no_dot(int_text(i)),
{
    if i < 0 {
        lemma_nat_text_no_dot((-i) as nat);
        assert(int_text(i) =~= seq!['-'] + nat_text((-i) as nat));
    } else {
        lemma_nat_text_no_dot(i as nat);
    }
}

pub proof fn lemma_hex_text_no_dot(b: Seq<u8>)
    ensures
        no_dot(hex_text(b)),
        hex_text(b).len() == 2 * b.len(),
    decreases b.len(),
{
    if b.len() > 0 {
        lemma_hex_text_no_dot(b.drop_last());
    }
}

/// The value of a digit character.
pub open spec fn digit_value(c: char) -> nat {
    if c == '1' { 1 } else if c == '2' { 2 } else if c == '3' { 3 } else if c == '4' { 4 }
    else if c == '5' { 5 } else if c == '6' { 6 } else if c == '7' { 7 } else if c == '8' { 8 }
    else if c == '9' { 9 } else { 0 }
}

pub open spec fn digits_value(s: Seq<char>) -> nat
    decreases s.len(),
{
    if s.len() == 0 { 0 } else { digits_value(s.drop_last()) * 10 + digit_value(s.last()) }
}

pub proof fn lemma_nat_text_value(n: nat)
    ensures
        digits_value(nat_text(n)) == n,
    decreases n,
{
    let d = n % 10;
    assert(digit_value(digit_char(d)) == d);
    if n >= 10 {
        lemma_nat_text_value(n / 10);
        let t = nat_text(n);
        assert(t.drop_last() =~= nat_text(n / 10));
        assert(t.last() == digit_char(d));
        assert(digits_value(t) == digits_value(nat_text(n / 10)) * 10 + d);
        assert(n == (n / 10) * 10 + d);
    } else {
        assert(nat_text(n).drop_last() =~= Seq::<char>::empty());
        assert(digits_value(nat_text(n).drop_last()) == 0);
        assert(nat_text(n).last() == digit_char(d));
    }
}

/// Distinct integers have distinct decimal texts.
pub proof fn lemma_int_text_injective(a: int, b: int)
    requires
        int_text(a) == int_text(b),
    ensures
        a == b,
{
    if a < 0 {
        lemma_nat_text_no_dot((-a) as nat);
        assert(int_text(a)[0] == '-');
    }
    if b < 0 {
        lemma_nat_text_no_dot((-b) as nat);
        assert(int_text(b)[0] == '-');
    }
    if a >= 0 {
        lemma_nat_text_no_dot(a as nat);
    }
    if b >= 0 {
        lemma_nat_text_no_dot(b as nat);
    }
    if a < 0 && b < 0 {
        assert(nat_text((-a) as nat) =~= int_text(a).drop_first());
        assert(nat_text((-b) as nat) =~= int_text(b).drop_first());
        lemma_nat_text_value((-a) as nat);
        lemma_nat_text_value((-b) as nat);
    } else if a >= 0 && b >= 0 {
        lemma_nat_text_value(a as nat);
        lemma_nat_text_value(b as nat);
    }
}

/// A text split at its first `'.'` splits one way only.
pub proof fn lemma_split_at_dot(a1: Seq<char>, b1: Seq<char>, a2: Seq<char>, b2: Seq<char>)
    requires
        no_dot(a1),
        no_dot(a2),
        a1 + seq!['.'] + b1 == a2 + seq!['.'] + b2,
    ensures
        a1 == a2,
        b1 == b2,
{
    let s = a1 + seq!['.'] + b1;
    if a1.len() < a2.len() {
        assert(s[a1.len() as int] == '.');
        assert((a2 + seq!['.'] + b2)[a1.len() as int] == a2[a1.len() as int]);
    } else if a2.len() < a1.len() {
        assert((a2 + seq!['.'] + b2)[a2.len() as int] == '.');
        assert(s[a2.len() as int] == a1[a2.len() as int]);
    }
    assert(a1 =~= s.subrange(0, a1.len() as int));
    assert(a2 =~= (a2 + seq!['.'] + b2).subrange(0, a2.len() as int));
    assert(b1 =~= s.subrange(a1.len() as int + 1, s.len() as int));
    assert(b2 =~= (a2 + seq!['.'] + b2).subrange(a2.len() as int + 1, s.len() as int));
}

/// Relies on `str::chars`, collected: the characters of the text, in order.
#[verifier::external_body]
pub(crate) fn chars_of(s: &str) -> (r: Vec<char>)
    ensures
        r@ == s@,
{
    s.chars().collect()
}

/// Relies on `String::from_iter` over characters: the text of those characters, in order.
#[verifier::external_body]
pub(crate) fn string_of(v: &[char]) -> (r: String)
    ensures
        r@ == v@,
{
    v.iter().collect()
}

/// Relies on `<i64 as FromStr>::from_str`: the decimal text of an `i64` parses to it.
#[verifier::external_body]
pub(crate) fn parse_i64(s: &str) -> (r: Option<i64>)
    ensures
        forall|x: i64| s@ == #[trigger] int_text(x as int) ==> r == Some(x),
{
    s.parse::<i64>().ok()
}

/// The first position of `'.'` at or after `from`.
pub fn find_dot(v: &Vec<char>, from: usize) -> (r: Option<usize>)
    requires
        from <= v@.len(),
    ensures
        r matches Some(i) ==> from <= i < v@.len() && v@[i as int] == '.'
            && no_dot(v@.subrange(from as int, i as int)),
        r is None ==> no_dot(v@.subrange(from as int, v@.len() as int)),
{
    let mut i = from;
    while i < v.len()
        invariant
            from <= i <= v@.len(),
            no_dot(v@.subrange(from as int, i as int)),
        decreases v@.len() - i,
    {
        if v[i] == '.' {
            return Some(i);
        }
        assert(v@.subrange(from as int, i + 1) =~= v@.subrange(from as int, i as int).push(v@[i as int]));
        i = i + 1;
    }
    None
}

/// The characters of `v` from `lo` up to `hi`.
pub fn copy_range(v: &Vec<char>, lo: usize, hi: usize) -> (r: Vec<char>)
    requires
        lo <= hi <= v@.len(),
    ensures
        r@ == v@.subrange(lo as int, hi as int),
{
    let mut r: Vec<char> = Vec::new();
    let mut i = lo;
    while i < hi
        invariant
            lo <= i <= hi <= v@.len(),
            r@ == v@.subrange(lo as int, i as int),
        decreases hi - i,
    {
        r.push(v[i]);
        assert(r@ =~= v@.subrange(lo as int, i + 1));
        i = i + 1;
    }
    r
}

/// Whether two character sequences are equal, compared in full.
pub fn same_chars(a: &Vec<char>, b: &Vec<char>) -> (r: bool)
    ensures
        r == (a@ == b@),
{
    if a.len() != b.len() {
        return false;
    }
    let mut same = true;
    let mut i: usize = 0;
    while i < a.len()
        invariant
            a@.len() == b@.len(),
            i <= a@.len(),
            same == (forall|j: int| 0 <= j < i ==> a@[j] == b@[j]),
        decreases a@.len() - i,
    {
        same = same && a[i] == b[i];
        i = i + 1;
    }
    if same {
        assert(a@ =~= b@);
    }
    same
}

fn hex_char(d: u8) -> (c: char)
    requires
        d < 16,
    ensures
        c == hex_digit(d as nat),
{
    if d == 0 { '0' } else if d == 1 { '1' } else if d == 2 { '2' } else if d == 3 { '3' }
    else if d == 4 { '4' } else if d == 5 { '5' } else if d == 6 { '6' } else if d == 7 { '7' }
    else if d == 8 { '8' } else if d == 9 { '9' } else if d == 10 { 'a' } else if d == 11 { 'b' }
    else if d == 12 { 'c' } else if d == 13 { 'd' } else if d == 14 { 'e' } else { 'f' }
}

/// Lower-case hexadecimal text of the bytes.
pub fn to_hex(b: &Vec<u8>) -> (r: Vec<char>)
    ensures
        r@ == hex_text(b@),
{
    let mut r: Vec<char> = Vec::new();
    let mut i: usize = 0;
    while i < b.len()
        invariant
            i <= b@.len(),
            r@ == hex_text(b@.subrange(0, i as int)),
        decreases b@.len() - i,
    {
        let x = b[i];
        r.push(hex_char(x / 16));
        r.push(hex_char(x % 16));
        proof {
            let p = b@.subrange(0, i + 1);
            assert(p.drop_last() =~= b@.subrange(0, i as int));
        }
        i = i + 1;
    }
    assert(b@.subrange(0, b@.len() as int) =~= b@);
    r
}

} // verus!

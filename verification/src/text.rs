//! Small operations on text, each stated over the sequence of characters.
use vstd::prelude::*;
use vstd::utf8::*;

verus! {

/// `String::push` adds one character at the end and changes nothing else.
pub assume_specification[ std::string::String::push ](s: &mut std::string::String, ch: char)
    ensures
        final(s)@ == old(s)@.push(ch),
;

/// The texts that a list of strings holds.
pub open spec fn texts(v: Seq<String>) -> Seq<Seq<char>> {
    Seq::new(v.len(), |i: int| v[i]@)
}

/// The text of an optional string.
pub open spec fn opt_str(o: Option<&str>) -> Option<Seq<char>> {
    match o {
        Some(s) => Some(s@),
        None => None,
    }
}

/// Whether two strings hold the same characters.
pub fn same_text(a: &str, b: &str) -> (same: bool)
    ensures
        same == (a@ == b@),
{
    let x = a.as_bytes();
    let y = b.as_bytes();
    proof {
        encode_utf8_decode_utf8(a@);
        encode_utf8_decode_utf8(b@);
        assert(x@ == encode_utf8(a@));
        assert(y@ == encode_utf8(b@));
    }
    if x.len() != y.len() {
        return false;
    }
    for i in 0..x.len()
        invariant
            x@ == encode_utf8(a@),
            y@ == encode_utf8(b@),
            x@.len() == y@.len(),
            forall|j: int| 0 <= j < i ==> x@[j] == y@[j],
    {
        if x[i] != y[i] {
            return false;
        }
    }
    proof {
        assert(x@ =~= y@);
        assert(decode_utf8(x@) == a@);
    }
    true
}

/// Whether `text` is one of those in `list`.
pub fn is_listed(list: &Vec<String>, text: &str) -> (r: bool)
    ensures
        r == texts(list@).contains(text@),
{
    for i in 0..list.len()
        invariant
            forall|j: int| 0 <= j < i ==> #[trigger] texts(list@)[j] != text@,
    {
        if same_text(list[i].as_str(), text) {
            assert(texts(list@)[i as int] == text@);
            return true;
        }
    }
    false
}

/// The characters of `s`, in order.
pub fn chars_of(s: &str) -> (v: Vec<char>)
    ensures
        v@ == s@,
{
    let mut v: Vec<char> = Vec::new();
    for c in it: s.chars()
        invariant
            v@ == it.seq().take(it.index()),
            it.seq() == s@,
    {
        v.push(c);
    }
    v
}

/// The text made of the characters `v[from..to]`.
pub fn text_of(v: &Vec<char>, from: usize, to: usize) -> (s: String)
    requires
        from <= to <= v@.len(),
    ensures
        s@ == v@.subrange(from as int, to as int),
{
    let mut s = String::new();
    let mut i: usize = from;
    while i < to
        invariant
            from <= i <= to <= v@.len(),
            s@ == v@.subrange(from as int, i as int),
        decreases to - i,
    {
        s.push(v[i]);
        i += 1;
        assert(s@ =~= v@.subrange(from as int, i as int));
    }
    s
}

/// Every character but the spaces.
pub open spec fn no_spaces(s: Seq<char>) -> Seq<char>
    decreases s.len(),
{
    if s.len() == 0 {
        s
    } else if s.last() == ' ' {
        no_spaces(s.drop_last())
    } else {
        no_spaces(s.drop_last()).push(s.last())
    }
}

/// `s` with its spaces left out.
pub fn without_spaces(s: &str) -> (r: String)
    ensures
        r@ == no_spaces(s@),
{
    let v = chars_of(s);
    let mut r = String::new();
    for i in 0..v.len()
        invariant
            v@ == s@,
            r@ == no_spaces(v@.take(i as int)),
    {
        proof {
            assert(v@.take(i + 1).drop_last() =~= v@.take(i as int));
        }
        if v[i] != ' ' {
            r.push(v[i]);
        }
    }
    assert(v@.take(v@.len() as int) =~= v@);
    r
}

/// A path extended by one more segment.
pub open spec fn segment(path: Seq<char>, name: Seq<char>) -> Seq<char> {
    path + seq![':', ':'] + name
}

/// `path::name`.
pub fn push_segment(path: &str, name: &str) -> (r: String)
    ensures
        r@ == segment(path@, name@),
{
    let mut r = path.to_owned();
    r.push(':');
    r.push(':');
    r.append(name);
    assert(r@ =~= segment(path@, name@));
    r
}

/// Whether `part` stands somewhere in `s`.
pub open spec fn holds_text(s: Seq<char>, part: Seq<char>) -> bool {
    exists|i: int| 0 <= i <= s.len() - part.len()
        && #[trigger] s.subrange(i, i + part.len()) == part
}

fn stands_at(v: &Vec<char>, part: &Vec<char>, at: usize) -> (r: bool)
    requires
        at + part@.len() <= v@.len(),
    ensures
        r == (v@.subrange(at as int, at + part@.len()) == part@),
{
    let ghost window = v@.subrange(at as int, at + part@.len());
    let n: usize = v.len();
    for j in 0..part.len()
        invariant
            at + part@.len() <= n,
            n == v@.len(),
            window == v@.subrange(at as int, at + part@.len()),
            forall|k: int| 0 <= k < j ==> window[k] == part@[k],
    {
        if v[at + j] != part[j] {
            assert(window[j as int] != part@[j as int]);
            return false;
        }
    }
    assert(window =~= part@);
    true
}

/// Whether `part` stands somewhere in `s`; the empty text stands everywhere.
pub fn contains_text(s: &str, part: &str) -> (r: bool)
    ensures
        r == holds_text(s@, part@),
{
    let v = chars_of(s);
    let p = chars_of(part);
    if p.len() > v.len() {
        return false;
    }
    let last: usize = v.len() - p.len();
    let mut i: usize = 0;
    while i <= last
        invariant
            v@ == s@,
            p@ == part@,
            last == v@.len() - p@.len(),
            i <= last + 1,
            forall|k: int| 0 <= k < i ==> #[trigger] s@.subrange(k, k + part@.len()) != part@,
        decreases last + 1 - i,
    {
        if stands_at(&v, &p, i) {
            return true;
        }
        if i == last {
            return false;
        }
        i += 1;
    }
    false
}

/// The lower-case form of an ASCII letter; any other character unchanged.
pub open spec fn ascii_lower(c: char) -> char {
    if 'A' <= c <= 'Z' {
        ((c as u8 + 32) as u8) as char
    } else {
        c
    }
}

/// Equal up to the case of ASCII letters.
pub open spec fn same_ignoring_case(a: Seq<char>, b: Seq<char>) -> bool {
    a.len() == b.len() && forall|i: int| #![auto] 0 <= i < a.len() ==> ascii_lower(a[i]) == ascii_lower(b[i])
}

fn lower(c: char) -> (r: char)
    ensures
        r == ascii_lower(c),
{
    if 'A' <= c && c <= 'Z' {
        ((c as u8) + 32) as char
    } else {
        c
    }
}

/// Whether two texts are equal up to the case of ASCII letters.
pub fn same_text_ignoring_case(a: &str, b: &str) -> (r: bool)
    ensures
        r == same_ignoring_case(a@, b@),
{
    let x = chars_of(a);
    let y = chars_of(b);
    if x.len() != y.len() {
        return false;
    }
    for i in 0..x.len()
        invariant
            x@ == a@,
            y@ == b@,
            x@.len() == y@.len(),
            forall|j: int| #![auto] 0 <= j < i ==> ascii_lower(a@[j]) == ascii_lower(b@[j]),
    {
        if lower(x[i]) != lower(y[i]) {
            return false;
        }
    }
    true
}

/// The number that a run of decimal digits stands for.
pub open spec fn digits_value(s: Seq<char>) -> nat
    decreases s.len(),
{
    if s.len() == 0 {
        0
    } else {
        digits_value(s.drop_last()) * 10 + (s.last() as nat - '0' as nat) as nat
    }
}

/// A run of one or more decimal digits.
pub open spec fn is_digits(s: Seq<char>) -> bool {
    s.len() > 0 && forall|i: int| 0 <= i < s.len() ==> '0' <= #[trigger] s[i] <= '9'
}

/// A sign that may stand before the digits of an integer.
pub open spec fn has_sign(s: Seq<char>) -> bool {
    s.len() > 0 && (s[0] == '+' || s[0] == '-')
}

/// The integer that `s` writes out in decimal, if it does: digits, with a sign before them or not.
pub open spec fn decimal(s: Seq<char>) -> Option<int> {
    let digits = if has_sign(s) {
        s.skip(1)
    } else {
        s
    };
    if !is_digits(digits) {
        None
    } else if s[0] == '-' {
        Some(-(digits_value(digits) as int))
    } else {
        Some(digits_value(digits) as int)
    }
}

/// The same, where the integer is one that `i128` holds.
pub open spec fn decimal_i128(s: Seq<char>) -> Option<i128> {
    match decimal(s) {
        Some(n) => if i128::MIN <= n <= i128::MAX {
            Some(n as i128)
        } else {
            None
        },
        None => None,
    }
}

proof fn lemma_digits_grow(s: Seq<char>, i: int)
    requires
        is_digits(s),
        0 <= i <= s.len(),
    ensures
        digits_value(s.take(i)) <= digits_value(s),
    decreases s.len() - i,
{
    if i < s.len() {
        assert(s.take(i + 1).drop_last() =~= s.take(i));
        assert(s.take(i + 1).last() == s[i]);
        lemma_digits_grow(s, i + 1);
    } else {
        assert(s.take(i) =~= s);
    }
}

/// The digits `v[from..]` as a number of at most `limit`; `None` where there is no digit, another
/// character, or a larger number.
fn magnitude(v: &Vec<char>, from: usize, limit: u128) -> (r: Option<u128>)
    requires
        from <= v@.len(),
        limit >= 9,
    ensures
        r == (if is_digits(v@.skip(from as int)) && digits_value(v@.skip(from as int)) <= limit {
            Some(digits_value(v@.skip(from as int)) as u128)
        } else {
            None
        }),
{
    let ghost s = v@.skip(from as int);
    if from == v.len() {
        return None;
    }
    let mut k: usize = from;
    while k < v.len()
        invariant
            from <= k <= v@.len(),
            s == v@.skip(from as int),
            forall|i: int| 0 <= i < k - from ==> '0' <= #[trigger] s[i] <= '9',
        decreases v@.len() - k,
    {
        if v[k] < '0' || v[k] > '9' {
            assert(s[k - from] == v@[k as int]);
            return None;
        }
        assert(s[k - from] == v@[k as int]);
        k += 1;
    }
    assert(is_digits(s));
    let mut acc: u128 = 0;
    let mut j: usize = from;
    while j < v.len()
        invariant
            from <= j <= v@.len(),
            s == v@.skip(from as int),
            is_digits(s),
            limit >= 9,
            acc == digits_value(s.take(j - from)),
            acc <= limit,
        decreases v@.len() - j,
    {
        let ghost i = j - from;
        proof {
            assert(s[i] == v@[j as int]);
            assert(s.take(i + 1).drop_last() =~= s.take(i));
            assert(s.take(i + 1).last() == s[i]);
            lemma_digits_grow(s, i + 1);
        }
        let d: u128 = (v[j] as u32 - '0' as u32) as u128;
        if acc > (limit - d) / 10 {
            return None;
        }
        acc = acc * 10 + d;
        j += 1;
    }
    assert(s.take(s.len() as int) =~= s);
    Some(acc)
}

/// The integer that a decimal text writes out, where `i128` holds it.
pub fn parse_decimal(text: &str) -> (r: Option<i128>)
    ensures
        r == decimal_i128(text@),
{
    let v = chars_of(text);
    if v.len() > 0 && v[0] == '-' {
        match magnitude(&v, 1, 170141183460469231731687303715884105728) {
            Some(n) => if n == 170141183460469231731687303715884105728 {
                Some(i128::MIN)
            } else {
                Some(-(n as i128))
            },
            None => None,
        }
    } else {
        let from: usize = if v.len() > 0 && v[0] == '+' {
            1
        } else {
            0
        };
        proof {
            assert(v@.skip(0) =~= v@);
        }
        match magnitude(&v, from, 170141183460469231731687303715884105727) {
            Some(n) => Some(n as i128),
            None => None,
        }
    }
}

} // verus!

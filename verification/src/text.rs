use vstd::prelude::*;
use vstd::string::*;

verus! {

/// The characters that `char::is_whitespace` accepts: those with the
/// Unicode `White_Space` property.
pub open spec fn is_white_space(c: char) -> bool {
    let v = c as u32;
    ||| 0x9 <= v <= 0xd
    ||| v == 0x20
    ||| v == 0x85
    ||| v == 0xa0
    ||| v == 0x1680
    ||| 0x2000 <= v <= 0x200a
    ||| v == 0x2028
    ||| v == 0x2029
    ||| v == 0x202f
    ||| v == 0x205f
    ||| v == 0x3000
}

/// `s[a..b]` is what remains of `s` once leading and trailing white space
/// are removed.
pub open spec fn trim_bounds(s: Seq<char>, a: int, b: int) -> bool {
    &&& 0 <= a <= b <= s.len()
    &&& forall|i: int| 0 <= i < a ==> is_white_space(#[trigger] s[i])
    &&& forall|i: int| b <= i < s.len() ==> is_white_space(#[trigger] s[i])
    &&& a < b ==> !is_white_space(s[a]) && !is_white_space(s[b - 1])
    &&& a == b ==> a == s.len()
}

/// `s` without its leading and trailing white space.
pub open spec fn trimmed(s: Seq<char>) -> Seq<char> {
    let (a, b) = choose|a: int, b: int| trim_bounds(s, a, b);
    s.subrange(a, b)
}

/// Only one pair of bounds trims a string.
proof fn lemma_trim_bounds_unique(s: Seq<char>, a: int, b: int, a2: int, b2: int)
    requires
        trim_bounds(s, a, b),
        trim_bounds(s, a2, b2),
    ensures
        a == a2,
        b == b2,
{
    if a < a2 {
        assert(is_white_space(s[a]));
    } else if a2 < a {
        assert(is_white_space(s[a2]));
    }
    if b < b2 {
        assert(is_white_space(s[b2 - 1]));
    } else if b2 < b {
        assert(is_white_space(s[b - 1]));
    }
}

proof fn lemma_trimmed_is(s: Seq<char>, a: int, b: int)
    requires
        trim_bounds(s, a, b),
    ensures
        trimmed(s) == s.subrange(a, b),
{
    let (a2, b2) = choose|a2: int, b2: int| trim_bounds(s, a2, b2);
    lemma_trim_bounds_unique(s, a, b, a2, b2);
}

/// `needle` occurs in `hay` at position `i`.
pub open spec fn occurs_at(hay: Seq<char>, needle: Seq<char>, i: int) -> bool {
    &&& 0 <= i
    &&& i + needle.len() <= hay.len()
    &&& forall|k: int| 0 <= k < needle.len() ==> hay[i + k] == #[trigger] needle[k]
}

/// `needle` occurs somewhere in `hay` (the empty text occurs everywhere).
pub open spec fn contains_seq(hay: Seq<char>, needle: Seq<char>) -> bool {
    exists|i: int| #[trigger] occurs_at(hay, needle, i)
}

pub open spec fn is_digit(c: char) -> bool {
    '0' <= c <= '9'
}

pub open spec fn all_digits(s: Seq<char>) -> bool {
    forall|i: int| 0 <= i < s.len() ==> is_digit(#[trigger] s[i])
}

/// The number that the decimal digits `s` spell.
pub open spec fn digits_value(s: Seq<char>) -> int
    decreases s.len(),
{
    if s.len() == 0 {
        0
    } else {
        digits_value(s.drop_last()) * 10 + (s.last() as int - '0' as int)
    }
}

/// What `str::parse::<u32>` gives: an optional `+` and then one or more
/// decimal digits whose value fits in a `u32`.
pub open spec fn parse_u32_spec(s: Seq<char>) -> Option<u32> {
    let body = if s.len() > 0 && s[0] == '+' { s.drop_first() } else { s };
    if body.len() > 0 && all_digits(body) && digits_value(body) <= u32::MAX {
        Some(digits_value(body) as u32)
    } else {
        None
    }
}

/// What `str::parse::<i32>` gives: an optional `+` or `-` and then one or
/// more decimal digits whose signed value fits in an `i32`.
pub open spec fn parse_i32_spec(s: Seq<char>) -> Option<i32> {
    let neg = s.len() > 0 && s[0] == '-';
    let body = if s.len() > 0 && (s[0] == '+' || s[0] == '-') { s.drop_first() } else { s };
    let v = if neg { -digits_value(body) } else { digits_value(body) };
    if body.len() > 0 && all_digits(body) && i32::MIN <= v <= i32::MAX {
        Some(v as i32)
    } else {
        None
    }
}

/// The characters of `s`, one by one.
pub fn chars_of(s: &str) -> (v: Vec<char>)
    ensures
        v@ == s@,
{
    let n = s.unicode_len();
    let mut v: Vec<char> = Vec::new();
    let mut i: usize = 0;
    while i < n
        invariant
            n == s@.len(),
            i <= n,
            v@ == s@.subrange(0, i as int),
        decreases n - i,
    {
        v.push(s.get_char(i));
        i = i + 1;
    }
    v
}

/// Whether `c` is white space, as `char::is_whitespace` decides.
pub fn is_white_space_char(c: char) -> (r: bool)
    ensures
        r == is_white_space(c),
{
    let v = c as u32;
    (0x9 <= v && v <= 0xd) || v == 0x20 || v == 0x85 || v == 0xa0 || v == 0x1680
        || (0x2000 <= v && v <= 0x200a) || v == 0x2028 || v == 0x2029 || v == 0x202f
        || v == 0x205f || v == 0x3000
}

/// The bounds of `s` without leading and trailing white space.
fn trim_range(s: &Vec<char>) -> (r: (usize, usize))
    ensures
        trim_bounds(s@, r.0 as int, r.1 as int),
{
    let n = s.len();
    let mut a: usize = 0;
    while a < n && is_white_space_char(s[a])
        invariant_except_break
            a <= n,
            n == s@.len(),
            forall|i: int| 0 <= i < a ==> is_white_space(#[trigger] s@[i]),
        ensures
            a <= n,
            forall|i: int| 0 <= i < a ==> is_white_space(#[trigger] s@[i]),
            a < n ==> !is_white_space(s@[a as int]),
        decreases n - a,
    {
        a = a + 1;
    }
    let mut b: usize = n;
    while b > a && is_white_space_char(s[b - 1])
        invariant
            a <= b <= n,
            n == s@.len(),
            a < n ==> !is_white_space(s@[a as int]),
            forall|i: int| b <= i < n ==> is_white_space(#[trigger] s@[i]),
        decreases b - a,
    {
        b = b - 1;
    }
    (a, b)
}

/// `s` without leading and trailing white space, as `str::trim` gives it.
pub fn trim_text(s: &str) -> (r: String)
    ensures
        r@ == trimmed(s@),
{
    let cs = chars_of(s);
    let (a, b) = trim_range(&cs);
    proof {
        lemma_trimmed_is(s@, a as int, b as int);
    }
    String::from_str(s.substring_char(a, b))
}

/// Whether `needle` occurs in `hay`, as `str::contains` decides.
pub fn contains_text(hay: &str, needle: &str) -> (r: bool)
    ensures
        r == contains_seq(hay@, needle@),
{
    let h = chars_of(hay);
    let n = chars_of(needle);
    if n.len() > h.len() {
        assert(!contains_seq(hay@, needle@));
        return false;
    }
    let last = h.len() - n.len();
    let mut i: usize = 0;
    while i <= last
        invariant
            last == h@.len() - n@.len(),
            n@.len() <= h@.len(),
            h@.len() <= usize::MAX,
            h@ == hay@,
            n@ == needle@,
            forall|j: int| 0 <= j < i ==> !#[trigger] occurs_at(h@, n@, j),
        decreases last + 1 - i,
    {
        let mut k: usize = 0;
        let mut same = true;
        while same && k < n.len()
            invariant
                i <= last,
                last == h@.len() - n@.len(),
                n@.len() <= h@.len(),
                h@.len() <= usize::MAX,
                k <= n@.len(),
                forall|kk: int| 0 <= kk < k ==> h@[i + kk] == #[trigger] n@[kk],
                !same ==> k < n@.len() && h@[i + k] != n@[k as int],
            decreases n@.len() - k, (if same { 1int } else { 0int }),
        {
            if h[i + k] == n[k] {
                k = k + 1;
            } else {
                same = false;
            }
        }
        if k == n.len() {
            assert(occurs_at(h@, n@, i as int));
            return true;
        }
        assert(!occurs_at(h@, n@, i as int)) by {
            assert(h@[i + k] != n@[k as int]);
        }
        i = i + 1;
    }
    assert forall|j: int| !#[trigger] occurs_at(h@, n@, j) by {
        if 0 <= j < i {
        }
    }
    false
}

/// `min(digits_value(s), cap)`, kept small as digits are added.
proof fn lemma_capped_step(s: Seq<char>, i: int, acc: int, cap: int)
    requires
        0 <= i < s.len(),
        all_digits(s),
        cap > 0,
        acc == if digits_value(s.take(i)) < cap { digits_value(s.take(i)) } else { cap },
        digits_value(s.take(i)) >= 0,
    ensures
        digits_value(s.take(i + 1)) >= 0,
        digits_value(s.take(i + 1)) == digits_value(s.take(i)) * 10 + (s[i] as int - '0' as int),
        (if acc * 10 + (s[i] as int - '0' as int) < cap { acc * 10 + (s[i] as int - '0' as int) } else { cap })
            == (if digits_value(s.take(i + 1)) < cap { digits_value(s.take(i + 1)) } else { cap }),
{
    assert(s.take(i + 1).drop_last() =~= s.take(i));
    assert(is_digit(s[i]));
}

/// The value of the decimal digits `cs[from..]`, or `None` when one of them
/// is not a digit or the value exceeds `max`.
fn digits_in_range(cs: &Vec<char>, from: usize, max: u64) -> (r: Option<u64>)
    requires
        from < cs@.len(),
        max < 0x1_0000_0000,
    ensures
        ({
            let body = cs@.subrange(from as int, cs@.len() as int);
            match r {
                Some(v) => all_digits(body) && v == digits_value(body) && v <= max,
                None => !(all_digits(body) && digits_value(body) <= max),
            }
        }),
{
    let ghost body = cs@.subrange(from as int, cs@.len() as int);
    let n = cs.len();
    let cap: u64 = max + 1;
    let mut acc: u64 = 0;
    let mut i: usize = from;
    while i < n
        invariant
            from <= i <= n,
            n == cs@.len(),
            cap == max + 1,
            max < 0x1_0000_0000,
            body == cs@.subrange(from as int, n as int),
            all_digits(body.take(i - from)),
            digits_value(body.take(i - from)) >= 0,
            acc == if digits_value(body.take(i - from)) < cap { digits_value(body.take(i - from)) } else { cap as int },
        decreases n - i,
    {
        let c = cs[i];
        if !('0' <= c && c <= '9') {
            assert(body[i - from] == c);
            assert(!all_digits(body));
            return None;
        }
        let ghost k: int = i - from;
        proof {
            assert(body.take(k + 1) =~= body.take(k).push(c));
            assert(all_digits(body.take(k + 1)));
            assert(body.take(k + 1).take(k) =~= body.take(k));
            assert(body.take(k + 1).take(k + 1) =~= body.take(k + 1));
            lemma_capped_step(body.take(k + 1), k, acc as int, cap as int);
        }
        let d: u64 = (c as u32 - '0' as u32) as u64;
        let next: u64 = acc * 10 + d;
        acc = if next < cap { next } else { cap };
        i = i + 1;
    }
    assert(body.take(n - from) =~= body);
    if acc == cap {
        None
    } else {
        Some(acc)
    }
}

/// Parses `s` as `str::parse::<u32>` does.
pub fn parse_u32(s: &str) -> (r: Option<u32>)
    ensures
        r == parse_u32_spec(s@),
{
    let cs = chars_of(s);
    let n = cs.len();
    if n == 0 {
        return None;
    }
    let from: usize = if cs[0] == '+' { 1 } else { 0 };
    if from == n {
        return None;
    }
    assert(cs@.subrange(from as int, n as int) =~= (if s@[0] == '+' { s@.drop_first() } else { s@ }));
    match digits_in_range(&cs, from, 0xffff_ffff) {
        Some(v) => Some(v as u32),
        None => None,
    }
}

/// Parses `s` as `str::parse::<i32>` does.
pub fn parse_i32(s: &str) -> (r: Option<i32>)
    ensures
        r == parse_i32_spec(s@),
{
    let cs = chars_of(s);
    let n = cs.len();
    if n == 0 {
        return None;
    }
    let neg = cs[0] == '-';
    let from: usize = if cs[0] == '+' || cs[0] == '-' { 1 } else { 0 };
    if from == n {
        return None;
    }
    assert(cs@.subrange(from as int, n as int)
        =~= (if s@[0] == '+' || s@[0] == '-' { s@.drop_first() } else { s@ }));
    let max: u64 = if neg { 0x8000_0000 } else { 0x7fff_ffff };
    match digits_in_range(&cs, from, max) {
        Some(v) => {
            if neg {
                Some((0 - v as i64) as i32)
            } else {
                Some(v as i32)
            }
        },
        None => None,
    }
}

/// The lower-case form of `s`, as `str::to_lowercase` computes it.
pub uninterp spec fn lowercase(s: Seq<char>) -> Seq<char>;

/// Calls `str::to_lowercase`, which gives the Unicode lower-case form of
/// `s` (by the Unicode case mapping, where a few characters depend on
/// their context, such as a final capital sigma). The contract only names
/// the result: it is the same for the same text.
#[verifier::external_body]
pub(crate) fn to_lowercase(s: &str) -> (r: String)
    ensures
        r@ == lowercase(s@),
{
    s.to_lowercase()
}


/// `s` begins with `p`.
pub open spec fn starts_with_seq(s: Seq<char>, p: Seq<char>) -> bool {
    p.len() <= s.len() && s.take(p.len() as int) == p
}

/// `s` ends with `p`.
pub open spec fn ends_with_seq(s: Seq<char>, p: Seq<char>) -> bool {
    p.len() <= s.len() && s.skip(s.len() - p.len()) == p
}

/// Whether `s` begins with `p`, as `str::starts_with` decides.
pub fn starts_with_text(s: &str, p: &str) -> (r: bool)
    ensures
        r == starts_with_seq(s@, p@),
{
    let cs = chars_of(s);
    let ps = chars_of(p);
    if ps.len() > cs.len() {
        return false;
    }
    let mut k: usize = 0;
    while k < ps.len()
        invariant
            ps@.len() <= cs@.len(),
            cs@ == s@,
            ps@ == p@,
            k <= ps@.len(),
            forall|j: int| 0 <= j < k ==> cs@[j] == ps@[j],
        decreases ps@.len() - k,
    {
        if cs[k] != ps[k] {
            assert(cs@.take(ps@.len() as int)[k as int] != ps@[k as int]);
            return false;
        }
        k = k + 1;
    }
    assert(cs@.take(ps@.len() as int) =~= ps@);
    true
}

/// Whether `s` ends with `p`, as `str::ends_with` decides.
pub fn ends_with_text(s: &str, p: &str) -> (r: bool)
    ensures
        r == ends_with_seq(s@, p@),
{
    let cs = chars_of(s);
    let ps = chars_of(p);
    if ps.len() > cs.len() {
        return false;
    }
    let off = cs.len() - ps.len();
    let mut k: usize = 0;
    while k < ps.len()
        invariant
            ps@.len() <= cs@.len(),
            cs@.len() <= usize::MAX,
            cs@ == s@,
            ps@ == p@,
            off == cs@.len() - ps@.len(),
            k <= ps@.len(),
            forall|j: int| 0 <= j < k ==> cs@[off + j] == ps@[j],
        decreases ps@.len() - k,
    {
        if cs[off + k] != ps[k] {
            assert(cs@.skip(off as int)[k as int] != ps@[k as int]);
            return false;
        }
        k = k + 1;
    }
    assert(cs@.skip(off as int) =~= ps@);
    true
}

/// `k` is the length of the run of decimal digits at the start of `s`.
pub open spec fn digit_run(s: Seq<char>, k: int) -> bool {
    &&& 0 <= k <= s.len()
    &&& all_digits(s.take(k))
    &&& k < s.len() ==> !is_digit(s[k])
}

/// The decimal digits at the start of `s` (what
/// `chars().take_while(char::is_ascii_digit)` collects).
pub open spec fn leading_digits(s: Seq<char>) -> Seq<char> {
    s.take(choose|k: int| digit_run(s, k))
}

proof fn lemma_leading_digits_is(s: Seq<char>, k: int)
    requires
        digit_run(s, k),
    ensures
        leading_digits(s) == s.take(k),
{
    let k2 = choose|k2: int| digit_run(s, k2);
    if k < k2 {
        assert(s.take(k2)[k] == s[k]);
    } else if k2 < k {
        assert(s.take(k)[k2] == s[k2]);
    }
}

/// The run of decimal digits at the start of `s[from..]`.
pub fn leading_digits_from(s: &str, from: usize) -> (r: String)
    requires
        from <= s@.len(),
    ensures
        r@ == leading_digits(s@.skip(from as int)),
{
    let cs = chars_of(s);
    let n = cs.len();
    let mut e: usize = from;
    while e < n && '0' <= cs[e] && cs[e] <= '9'
        invariant
            from <= e <= n,
            n == cs@.len(),
            forall|j: int| from <= j < e ==> is_digit(#[trigger] cs@[j]),
        decreases n - e,
    {
        e = e + 1;
    }
    proof {
        let rest = s@.skip(from as int);
        let k = e - from;
        assert forall|j: int| 0 <= j < k implies is_digit(#[trigger] rest.take(k)[j]) by {
            assert(rest.take(k)[j] == cs@[from + j]);
        }
        if k < rest.len() {
            assert(rest[k] == cs@[e as int]);
        }
        assert(digit_run(rest, k));
        lemma_leading_digits_is(rest, k);
        assert(s@.subrange(from as int, e as int) =~= rest.take(k));
    }
    String::from_str(s.substring_char(from, e))
}


/// Whether `a` and `b` are the same text.
pub fn same_text(a: &str, b: &str) -> (r: bool)
    ensures
        r == (a@ == b@),
{
    let ca = chars_of(a);
    let cb = chars_of(b);
    if ca.len() != cb.len() {
        return false;
    }
    let mut k: usize = 0;
    while k < ca.len()
        invariant
            ca@.len() == cb@.len(),
            ca@ == a@,
            cb@ == b@,
            k <= ca@.len(),
            forall|j: int| 0 <= j < k ==> ca@[j] == cb@[j],
        decreases ca@.len() - k,
    {
        if ca[k] != cb[k] {
            return false;
        }
        k = k + 1;
    }
    assert(ca@ =~= cb@);
    true
}

/// `prefix` followed by `rest`.
pub fn join_text(prefix: &str, rest: &str) -> (r: String)
    ensures
        r@ == prefix@ + rest@,
{
    let mut s = String::from_str(prefix);
    s.append(rest);
    s
}

/// The character of decimal digit `d`.
pub open spec fn digit_char(d: int) -> char {
    seq!['0', '1', '2', '3', '4', '5', '6', '7', '8', '9'][d]
}

/// The decimal form of `n`, without leading zeros (as `u32`'s `Display`
/// writes it).
pub open spec fn decimal(n: nat) -> Seq<char>
    decreases n,
{
    if n < 10 {
        seq![digit_char(n as int)]
    } else {
        decimal(n / 10) + seq![digit_char((n % 10) as int)]
    }
}

/// The text of decimal digit `d`.
fn digit_text(d: u32) -> (r: &'static str)
    requires
        d < 10,
    ensures
        r@ == seq![digit_char(d as int)],
{
    match d {
        0 => {
            proof {
                reveal_strlit("0");
            }
            assert("0"@ =~= seq![digit_char(0)]);
            "0"
        },
        1 => {
            proof {
                reveal_strlit("1");
            }
            assert("1"@ =~= seq![digit_char(1)]);
            "1"
        },
        2 => {
            proof {
                reveal_strlit("2");
            }
            assert("2"@ =~= seq![digit_char(2)]);
            "2"
        },
        3 => {
            proof {
                reveal_strlit("3");
            }
            assert("3"@ =~= seq![digit_char(3)]);
            "3"
        },
        4 => {
            proof {
                reveal_strlit("4");
            }
            assert("4"@ =~= seq![digit_char(4)]);
            "4"
        },
        5 => {
            proof {
                reveal_strlit("5");
            }
            assert("5"@ =~= seq![digit_char(5)]);
            "5"
        },
        6 => {
            proof {
                reveal_strlit("6");
            }
            assert("6"@ =~= seq![digit_char(6)]);
            "6"
        },
        7 => {
            proof {
                reveal_strlit("7");
            }
            assert("7"@ =~= seq![digit_char(7)]);
            "7"
        },
        8 => {
            proof {
                reveal_strlit("8");
            }
            assert("8"@ =~= seq![digit_char(8)]);
            "8"
        },
        _ => {
            proof {
                reveal_strlit("9");
            }
            assert("9"@ =~= seq![digit_char(9)]);
            "9"
        },
    }
}

/// The decimal form of `n`.
pub fn decimal_text(n: u32) -> (r: String)
    ensures
        r@ == decimal(n as nat),
    decreases n,
{
    if n < 10 {
        String::from_str(digit_text(n))
    } else {
        let mut s = decimal_text(n / 10);
        s.append(digit_text(n % 10));
        s
    }
}

} // verus!

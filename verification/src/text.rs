//! Character-level helpers on strings: equality, searching, ASCII upper-casing,
//! secret-name detection and masking of secret values for display.
use vstd::prelude::*;
use vstd::utf8::*;

verus! {

broadcast use vstd::string::group_string_axioms;

/// The characters of `s`, in order.
pub fn chars_of(s: &str) -> (r: Vec<char>)
    ensures
        r@ == s@,
{
    let mut out: Vec<char> = Vec::new();
    for c in it: s.chars()
        invariant
            out@ == it.seq().take(it.index() as int),
    {
        out.push(c);
    }
    out
}

/// Whether two character sequences are equal.
pub fn chars_equal(a: &[char], b: &[char]) -> (r: bool)
    ensures
        r == (a@ == b@),
{
    if a.len() != b.len() {
        return false;
    }
    let n = a.len();
    for i in 0..n
        invariant
            n == a@.len(),
            n == b@.len(),
            forall|j: int| 0 <= j < i ==> a@[j] == b@[j],
    {
        if a[i] != b[i] {
            return false;
        }
    }
    assert(a@ =~= b@);
    true
}

/// Whether two strings hold the same text.
pub fn text_eq(a: &str, b: &str) -> (r: bool)
    ensures
        r == (a@ == b@),
{
    let ca = chars_of(a);
    let cb = chars_of(b);
    chars_equal(ca.as_slice(), cb.as_slice())
}

/// `pat` occurs in `s` at position `i`.
pub open spec fn occurs_at(s: Seq<char>, pat: Seq<char>, i: int) -> bool {
    0 <= i && i + pat.len() <= s.len() && s.subrange(i, i + pat.len()) == pat
}

/// `pat` occurs somewhere in `s`.
pub open spec fn has_infix(s: Seq<char>, pat: Seq<char>) -> bool {
    exists|i: int| occurs_at(s, pat, i)
}

/// `s` begins with `pat`.
pub open spec fn has_prefix(s: Seq<char>, pat: Seq<char>) -> bool {
    occurs_at(s, pat, 0)
}

fn occurs_at_exec(s: &[char], pat: &[char], i: usize) -> (r: bool)
    requires
        i + pat@.len() <= s@.len(),
    ensures
        r == occurs_at(s@, pat@, i as int),
{
    let m = pat.len();
    let ls = s.len();
    for j in 0..m
        invariant
            m == pat@.len(),
            ls == s@.len(),
            i + m <= s@.len(),
            forall|k: int| 0 <= k < j ==> s@[i + k] == pat@[k],
    {
        if s[i + j] != pat[j] {
            assert(s@.subrange(i as int, i + m)[j as int] != pat@[j as int]);
            return false;
        }
    }
    assert(s@.subrange(i as int, i + m) =~= pat@);
    true
}

/// Whether `pat` occurs in `s`.
pub fn contains_chars(s: &[char], pat: &[char]) -> (r: bool)
    ensures
        r == has_infix(s@, pat@),
{
    if pat.len() > s.len() {
        return false;
    }
    let last = s.len() - pat.len();
    let mut i: usize = 0;
    loop
        invariant
            i <= last,
            last + pat@.len() == s@.len(),
            forall|k: int| 0 <= k < i ==> !occurs_at(s@, pat@, k),
        decreases last - i,
    {
        if occurs_at_exec(s, pat, i) {
            return true;
        }
        if i == last {
            assert forall|k: int| !occurs_at(s@, pat@, k) by {
                if occurs_at(s@, pat@, k) {
                    assert(k <= last);
                }
            }
            return false;
        }
        i = i + 1;
    }
}

/// Whether `s` begins with `pat`.
pub fn starts_with_chars(s: &[char], pat: &[char]) -> (r: bool)
    ensures
        r == has_prefix(s@, pat@),
{
    if pat.len() > s.len() {
        return false;
    }
    occurs_at_exec(s, pat, 0)
}

/// ASCII upper-casing of one character; other characters are unchanged.
pub open spec fn ascii_upper(c: char) -> char {
    if 'a' <= c && c <= 'z' {
        ((c as int) - 32) as char
    } else {
        c
    }
}

/// ASCII upper-casing of every character of `s`.
pub open spec fn ascii_upper_seq(s: Seq<char>) -> Seq<char> {
    s.map_values(|c: char| ascii_upper(c))
}

/// Upper-cases the ASCII letters of `s` and keeps every other character.
pub fn to_ascii_upper_chars(s: &[char]) -> (r: Vec<char>)
    ensures
        r@ == ascii_upper_seq(s@),
{
    let mut out: Vec<char> = Vec::new();
    let n = s.len();
    for i in 0..n
        invariant
            n == s@.len(),
            out@ == ascii_upper_seq(s@.take(i as int)),
    {
        let c = s[i];
        let u: char = if 'a' <= c && c <= 'z' {
            let b: u8 = (c as u8) - 32;
            b as char
        } else {
            c
        };
        out.push(u);
        assert(s@.take(i + 1) =~= s@.take(i as int).push(c));
        assert(ascii_upper_seq(s@.take(i + 1)) =~= ascii_upper_seq(s@.take(i as int)).push(u));
    }
    assert(s@.take(n as int) =~= s@);
    out
}


/// A key names a secret when its upper-cased form contains `KEY`, `TOKEN`,
/// `SECRET` or `PASSWORD`.
pub open spec fn is_secret_like_key(key: Seq<char>) -> bool {
    let k = ascii_upper_seq(key);
    has_infix(k, seq!['K', 'E', 'Y']) || has_infix(k, seq!['T', 'O', 'K', 'E', 'N'])
        || has_infix(k, seq!['S', 'E', 'C', 'R', 'E', 'T'])
        || has_infix(k, seq!['P', 'A', 'S', 'S', 'W', 'O', 'R', 'D'])
}

/// Whether a variable name looks like it holds a credential, ignoring ASCII case.
pub fn looks_like_secret(key: &str) -> (r: bool)
    ensures
        r == is_secret_like_key(key@),
{
    let chars = chars_of(key);
    let k = to_ascii_upper_chars(chars.as_slice());
    let p_key = vec!['K', 'E', 'Y'];
    let p_token = vec!['T', 'O', 'K', 'E', 'N'];
    let p_secret = vec!['S', 'E', 'C', 'R', 'E', 'T'];
    let p_password = vec!['P', 'A', 'S', 'S', 'W', 'O', 'R', 'D'];
    assert(p_key@ =~= seq!['K', 'E', 'Y']);
    assert(p_token@ =~= seq!['T', 'O', 'K', 'E', 'N']);
    assert(p_secret@ =~= seq!['S', 'E', 'C', 'R', 'E', 'T']);
    assert(p_password@ =~= seq!['P', 'A', 'S', 'S', 'W', 'O', 'R', 'D']);
    contains_chars(k.as_slice(), p_key.as_slice())
        || contains_chars(k.as_slice(), p_token.as_slice())
        || contains_chars(k.as_slice(), p_secret.as_slice())
        || contains_chars(k.as_slice(), p_password.as_slice())
}

/// The UTF-8 encoding of a string's text.
pub open spec fn utf8_bytes(s: Seq<char>) -> Seq<u8> {
    encode_utf8(s)
}

/// `n` asterisks.
pub open spec fn stars(n: nat) -> Seq<char> {
    Seq::new(n, |i: int| '*')
}

/// The masked form of a value: `<empty>` for the empty value, one `*` per byte
/// for values of at most four bytes, and otherwise the first two and last two
/// bytes around `***`.
pub open spec fn masked(value: Seq<char>) -> Seq<char> {
    let b = utf8_bytes(value);
    if value.len() == 0 {
        seq!['<', 'e', 'm', 'p', 't', 'y', '>']
    } else if b.len() <= 4 {
        stars(b.len())
    } else {
        decode_utf8(b.subrange(0, 2)) + stars(3) + decode_utf8(b.subrange(b.len() - 2, b.len() as int))
    }
}

/// A value can be masked without cutting a character: short values always, longer
/// ones when byte 2 and the byte two before the end start characters.
pub open spec fn maskable(value: Seq<char>) -> bool {
    let b = utf8_bytes(value);
    b.len() > 4 ==> is_char_boundary(b, 2) && is_char_boundary(b, b.len() - 2)
}

/// Hides a secret value for display, keeping at most two bytes at each end.
pub fn mask_value(value: &str) -> (r: String)
    requires
        maskable(value@),
    ensures
        r@ == masked(value@),
{
    if value.is_empty() {
        proof {
            reveal_strlit("<empty>");
        }
        let r = String::from_str("<empty>");
        assert(r@ =~= seq!['<', 'e', 'm', 'p', 't', 'y', '>']);
        return r;
    }
    let n = value.as_bytes().len();
    if n <= 4 {
        proof {
            reveal_strlit("*");
        }
        assert("*"@ =~= seq!['*']);
        let mut r = String::new();
        let mut i: usize = 0;
        while i < n
            invariant
                "*"@ =~= seq!['*'],
                i <= n,
                r@ =~= stars(i as nat),
            decreases n - i,
        {
            r.append("*");
            i = i + 1;
        }
        return r;
    }
    let (head, _rest) = value.split_at(2);
    let (_front, tail) = value.split_at(n - 2);
    proof {
        reveal_strlit("***");
        vstd::utf8::encode_utf8_decode_utf8(head@);
        vstd::utf8::encode_utf8_decode_utf8(tail@);
    }
    let mut r = String::from_str(head);
    r.append("***");
    r.append(tail);
    assert("***"@ =~= stars(3));
    r
}


/// Only the empty text has an empty encoding.
proof fn lemma_utf8_empty(s: Seq<char>)
    ensures
        utf8_bytes(s).len() == 0 <==> s.len() == 0,
{
    vstd::utf8::encode_utf8_decode_utf8(s);
    if utf8_bytes(s).len() == 0 {
        assert(utf8_bytes(s) =~= Seq::<u8>::empty());
        assert(valid_utf8(Seq::<u8>::empty()));
        assert(decode_utf8(Seq::<u8>::empty()) =~= Seq::<char>::empty());
    }
}

/// A masked value shows nothing but its length class and its two bytes at each
/// end: values of the same byte length up to four, or longer values that agree on
/// their first two and last two bytes, mask alike.
pub proof fn law_mask_reveals_only_ends(a: Seq<char>, b: Seq<char>)
    requires
        ({
            let x = utf8_bytes(a);
            let y = utf8_bytes(b);
            ||| x.len() == y.len() && x.len() <= 4
            ||| x.len() > 4 && y.len() > 4 && x.subrange(0, 2) == y.subrange(0, 2) && x.subrange(
                x.len() - 2,
                x.len() as int,
            ) == y.subrange(y.len() - 2, y.len() as int)
        }),
    ensures
        masked(a) == masked(b),
{
    lemma_utf8_empty(a);
    lemma_utf8_empty(b);
}

/// Whether [`mask_value`] can cut `value` without splitting a character.
pub fn can_mask(value: &str) -> (r: bool)
    ensures
        r == maskable(value@),
{
    let n = value.as_bytes().len();
    n <= 4 || (value.is_char_boundary(2) && value.is_char_boundary(n - 2))
}

} // verus!

use vstd::prelude::*;
use vstd::string::StringSliceAdditionalSpecFns;
use vstd::utf8::encode_utf8_decode_utf8;
use vstd::std_specs::iter::IteratorSpec;

verus! {

/// `pat` occurs in `s` as a run of consecutive characters.
pub open spec fn seq_contains(s: Seq<char>, pat: Seq<char>) -> bool {
    exists|i: int| 0 <= i && i + pat.len() <= s.len() && #[trigger] s.subrange(i, i + pat.len()) == pat
}

/// What `str::to_lowercase` makes of a text (Unicode lowercase mapping).
pub uninterp spec fn lowercase(s: Seq<char>) -> Seq<char>;

/// What `str::to_uppercase` makes of a text (Unicode uppercase mapping).
pub uninterp spec fn uppercase(s: Seq<char>) -> Seq<char>;

/// The value of a run of decimal digits.
pub open spec fn digits_value(s: Seq<char>) -> int
    decreases s.len(),
{
    if s.len() == 0 {
        0
    } else {
        digits_value(s.drop_last()) * 10 + (s.last() as int - '0' as int)
    }
}

/// Every character is an ASCII decimal digit.
pub open spec fn all_digits(s: Seq<char>) -> bool {
    forall|i: int| 0 <= i < s.len() ==> '0' <= #[trigger] s[i] <= '9'
}

/// What `str::parse::<i64>` makes of a text: an optional `+` or `-` followed by one or
/// more decimal digits, whose value fits in an `i64`; anything else does not parse.
pub open spec fn parsed_i64(s: Seq<char>) -> Option<i64> {
    let negative = s.len() > 0 && s[0] == '-';
    let signed = s.len() > 0 && (s[0] == '-' || s[0] == '+');
    let body = if signed { s.drop_first() } else { s };
    let value = if negative { -digits_value(body) } else { digits_value(body) };
    if body.len() == 0 || !all_digits(body) || value < i64::MIN || value > i64::MAX {
        None
    } else {
        Some(value as i64)
    }
}

/// `str::to_lowercase`: the result is the named lowercase mapping of `s`.
#[verifier::external_body]
pub(crate) fn str_to_lowercase(s: &str) -> (r: String)
    ensures
        r@ == lowercase(s@),
{
    s.to_lowercase()
}

/// `str::to_uppercase`: the result is the named uppercase mapping of `s`.
#[verifier::external_body]
pub(crate) fn str_to_uppercase(s: &str) -> (r: String)
    ensures
        r@ == uppercase(s@),
{
    s.to_uppercase()
}

/// Appending a digit never lowers the value of a run of digits.
proof fn lemma_digits_value_grows(s: Seq<char>, j: int)
    requires
        all_digits(s),
        0 <= j <= s.len(),
    ensures
        0 <= digits_value(s.subrange(0, j)) <= digits_value(s),
    decreases s.len(),
{
    if s.len() > 0 {
        if j < s.len() {
            lemma_digits_value_grows(s.drop_last(), j);
            assert(s.drop_last().subrange(0, j) =~= s.subrange(0, j));
        } else {
            assert(s.subrange(0, j) =~= s);
        }
        lemma_digits_value_grows(s.drop_last(), s.len() - 1);
        assert(s.drop_last().subrange(0, s.len() - 1) =~= s.drop_last());
    } else {
        assert(s.subrange(0, j) =~= s);
    }
}

/// The number an optionally signed run of ASCII decimal digits stands for, when it
/// fits in an `i64` (what `str::parse::<i64>` gives, with its error dropped).
pub fn str_parse_i64(s: &str) -> (r: Option<i64>)
    ensures
        r == parsed_i64(s@),
{
    broadcast use vstd::string::is_ascii_spec_bytes;
    if !s.is_ascii() {
        proof {
            let k = choose|k: int| 0 <= k < s@.len() && !('\0' <= #[trigger] s@[k] <= '\u{7f}');
            let signed = s@.len() > 0 && (s@[0] == '-' || s@[0] == '+');
            let start: int = if signed { 1 } else { 0 };
            let body = if signed { s@.drop_first() } else { s@ };
            assert(body[k - start] == s@[k]);
            assert(!('0' <= body[k - start] <= '9'));
        }
        return None;
    }
    let b = s.as_bytes();
    let n = b.len();
    proof {
        assert(b@.len() == s@.len());
        assert forall|i: int| 0 <= i < n implies b@[i] as int == s@[i] as int by {
            assert(b@[i] == s@[i] as u8);
        }
    }
    if n == 0 {
        return None;
    }
    let negative = b[0] == 45u8;
    let signed = negative || b[0] == 43u8;
    let start: usize = if signed { 1 } else { 0 };
    let ghost body = if signed { s@.drop_first() } else { s@ };
    proof {
        assert(negative == (s@[0] == '-'));
        assert(signed == (s@[0] == '-' || s@[0] == '+'));
        assert(body =~= s@.subrange(start as int, n as int));
    }
    if start == n {
        return None;
    }
    let mut i: usize = start;
    let mut acc: i128 = 0;
    while i < n
        invariant
            n == b@.len(),
            n == s@.len(),
            forall|j: int| 0 <= j < n ==> b@[j] as int == s@[j] as int,
            start <= i <= n,
            n > 0,
            negative == (s@[0] == '-'),
            signed == (s@[0] == '-' || s@[0] == '+'),
            start == (if signed { 1usize } else { 0usize }),
            body == (if signed { s@.drop_first() } else { s@ }),
            body =~= s@.subrange(start as int, n as int),
            all_digits(s@.subrange(start as int, i as int)),
            negative ==> acc == -digits_value(s@.subrange(start as int, i as int)),
            !negative ==> acc == digits_value(s@.subrange(start as int, i as int)),
            i64::MIN <= acc <= i64::MAX,
        decreases n - i,
    {
        let c = b[i];
        if c < 48u8 || c > 57u8 {
            proof {
                assert(body[i - start] == s@[i as int]);
                assert(!('0' <= body[i - start] <= '9'));
            }
            return None;
        }
        let ghost prev = s@.subrange(start as int, i as int);
        let ghost next = s@.subrange(start as int, i + 1);
        proof {
            assert(next.drop_last() =~= prev);
            assert(next.last() == s@[i as int]);
            assert(all_digits(next));
            lemma_digits_value_grows(prev, prev.len() as int);
            assert(prev.subrange(0, prev.len() as int) =~= prev);
        }
        let d = (c - 48u8) as i128;
        let value = if negative { acc * 10 - d } else { acc * 10 + d };
        if value < i64::MIN as i128 || value > i64::MAX as i128 {
            proof {
                assert(d == s@[i as int] as int - '0' as int);
                assert(digits_value(next) == digits_value(prev) * 10 + (s@[i as int] as int - '0' as int));
                if all_digits(body) {
                    lemma_digits_value_grows(body, (i + 1 - start) as int);
                    assert(body.subrange(0, (i + 1 - start) as int) =~= next);
                }
            }
            return None;
        }
        acc = value;
        i = i + 1;
    }
    proof {
        assert(s@.subrange(start as int, n as int) =~= body);
    }
    Some(acc as i64)
}

/// The characters of `s`, in order.
pub fn chars_of(s: &str) -> (v: Vec<char>)
    ensures
        v@ == s@,
{
    broadcast use vstd::string::axiom_spec_iter, vstd::string::next_postcondition;
    let mut it = s.chars();
    let mut v: Vec<char> = Vec::new();
    loop
        invariant
            it.remaining() == s@.subrange(v@.len() as int, s@.len() as int),
            v@ == s@.subrange(0, v@.len() as int),
            v@.len() <= s@.len(),
            it.obeys_prophetic_iter_laws(),
        ensures
            v@ == s@,
        decreases s@.len() - v@.len(),
    {
        let ghost before = it;
        match it.next() {
            Some(c) => {
                proof {
                    assert(before.remaining().len() > 0);
                    assert(c == s@[v@.len() as int]);
                }
                v.push(c);
                proof {
                    assert(v@ =~= s@.subrange(0, v@.len() as int));
                    assert(it.remaining() =~= s@.subrange(v@.len() as int, s@.len() as int));
                }
            },
            None => {
                proof {
                    assert(before.remaining().len() == 0);
                    assert(v@ =~= s@);
                }
                break;
            },
        }
    }
    v
}

/// `pat` occurs in `s` starting at character `i`.
pub open spec fn occurs_at(s: Seq<char>, pat: Seq<char>, i: int) -> bool {
    0 <= i && i + pat.len() <= s.len() && s.subrange(i, i + pat.len()) == pat
}

/// Where `pat` first occurs in `s`, counted in characters; `None` when it does not occur.
pub fn find_first(s: &Vec<char>, pat: &Vec<char>) -> (r: Option<usize>)
    ensures
        r is None ==> !seq_contains(s@, pat@),
        match r {
            Some(i) => occurs_at(s@, pat@, i as int) && forall|j: int| 0 <= j < i ==> !occurs_at(s@, pat@, j),
            None => true,
        },
{
    let n = s.len();
    let m = pat.len();
    if m > n {
        proof {
            assert forall|i: int| 0 <= i && i + pat@.len() <= s@.len() implies #[trigger] s@.subrange(
                i,
                i + pat@.len(),
            ) != pat@ by {}
        }
        return None;
    }
    let mut i: usize = 0;
    while i <= n - m
        invariant
            n == s@.len(),
            m == pat@.len(),
            m <= n,
            0 <= i <= n - m + 1,
            forall|j: int| 0 <= j < i ==> !occurs_at(s@, pat@, j),
        decreases n - m + 1 - i,
    {
        let mut k: usize = 0;
        while k < m && s[i + k] == pat[k]
            invariant
                n == s@.len(),
                m == pat@.len(),
                i + m <= n,
                0 <= k <= m,
                forall|q: int| 0 <= q < k ==> s@[i + q] == pat@[q],
            decreases m - k,
        {
            k = k + 1;
        }
        if k == m {
            proof {
                assert(s@.subrange(i as int, i + m) =~= pat@);
            }
            return Some(i);
        }
        proof {
            assert(s@.subrange(i as int, i + m)[k as int] != pat@[k as int]);
        }
        i = i + 1;
    }
    proof {
        assert forall|i: int| 0 <= i && i + pat@.len() <= s@.len() implies #[trigger] s@.subrange(
            i,
            i + pat@.len(),
        ) != pat@ by {
            assert(!occurs_at(s@, pat@, i));
        }
    }
    None
}

/// Whether `pat` occurs in `s` (what `str::contains` with a string pattern gives).
pub fn str_contains(s: &str, pat: &str) -> (b: bool)
    ensures
        b == seq_contains(s@, pat@),
{
    let text = chars_of(s);
    let p = chars_of(pat);
    match find_first(&text, &p) {
        Some(i) => {
            proof {
                assert(occurs_at(s@, pat@, i as int));
            }
            true
        },
        None => false,
    }
}

/// Whether two texts are equal, comparing their UTF-8 bytes.
pub fn str_eq(a: &str, b: &str) -> (r: bool)
    ensures
        r == (a@ == b@),
{
    let x = a.as_bytes();
    let y = b.as_bytes();
    proof {
        encode_utf8_decode_utf8(a@);
        encode_utf8_decode_utf8(b@);
    }
    if x.len() != y.len() {
        return false;
    }
    let mut i: usize = 0;
    while i < x.len()
        invariant
            x@ == a.spec_bytes(),
            y@ == b.spec_bytes(),
            x@.len() == y@.len(),
            0 <= i <= x@.len(),
            forall|j: int| 0 <= j < i ==> x@[j] == y@[j],
        decreases x@.len() - i,
    {
        if x[i] != y[i] {
            return false;
        }
        i = i + 1;
    }
    assert(x@ =~= y@);
    true
}

} // verus!

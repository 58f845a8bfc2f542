//! Ordering, splitting, substring replacement and number parsing on texts.

use vstd::prelude::*;
use vstd::string::*;
use crate::strings::starts_with;

verus! {

/// Lexicographic order on characters (the order of `String`'s `Ord`, since UTF-8 keeps
/// code-point order).
pub open spec fn lex_lt(a: Seq<char>, b: Seq<char>) -> bool
    decreases a.len(),
{
    if a.len() == 0 {
        b.len() > 0
    } else if b.len() == 0 {
        false
    } else if a[0] != b[0] {
        a[0] < b[0]
    } else {
        lex_lt(a.drop_first(), b.drop_first())
    }
}

/// Whether `a` sorts strictly before `b`.
pub fn text_lt(a: &str, b: &str) -> (r: bool)
    ensures
        r == lex_lt(a@, b@),
{
    let al = a.unicode_len();
    let bl = b.unicode_len();
    let mut i: usize = 0;
    assert(a@.subrange(0, al as int) =~= a@);
    assert(b@.subrange(0, bl as int) =~= b@);
    while i < al && i < bl && a.get_char(i) == b.get_char(i)
        invariant
            al == a@.len(),
            bl == b@.len(),
            i <= al,
            i <= bl,
            lex_lt(a@, b@) == lex_lt(a@.subrange(i as int, al as int), b@.subrange(i as int, bl as int)),
        decreases al - i,
    {
        proof {
            let x = a@.subrange(i as int, al as int);
            let y = b@.subrange(i as int, bl as int);
            assert(x.drop_first() =~= a@.subrange(i + 1, al as int));
            assert(y.drop_first() =~= b@.subrange(i + 1, bl as int));
        }
        i = i + 1;
    }
    proof {
        assert(a@.subrange(0, al as int) =~= a@);
        assert(b@.subrange(0, bl as int) =~= b@);
    }
    if i == al {
        i < bl
    } else if i == bl {
        false
    } else {
        a.get_char(i) < b.get_char(i)
    }
}

/// The pieces of `s` between the separator `sep`, as `str::split` with a `char` gives
/// them.
pub open spec fn split_spec(s: Seq<char>, sep: char) -> Seq<Seq<char>>
    decreases s.len(),
{
    if s.len() == 0 {
        seq![Seq::empty()]
    } else {
        let rest = split_spec(s.drop_last(), sep);
        if s.last() == sep {
            rest.push(Seq::empty())
        } else {
            rest.update(rest.len() - 1, rest.last().push(s.last()))
        }
    }
}

proof fn lemma_split_nonempty(s: Seq<char>, sep: char)
    ensures
        split_spec(s, sep).len() >= 1,
    decreases s.len(),
{
    if s.len() > 0 {
        lemma_split_nonempty(s.drop_last(), sep);
    }
}

/// Splits `s` at each `sep`.
pub fn split_char(s: &str, sep: char) -> (r: Vec<String>)
    ensures
        r@.map_values(|x: String| x@) == split_spec(s@, sep),
{
    let len = s.unicode_len();
    let mut out: Vec<String> = Vec::new();
    let mut cur = String::new();
    let mut i: usize = 0;
    while i < len
        invariant
            len == s@.len(),
            i <= len,
            out@.map_values(|x: String| x@).push(cur@) == split_spec(s@.subrange(0, i as int), sep),
        decreases len - i,
    {
        proof {
            lemma_split_nonempty(s@.subrange(0, i as int), sep);
            assert(s@.subrange(0, i + 1).drop_last() =~= s@.subrange(0, i as int));
        }
        let c = s.get_char(i);
        let ghost prev_out = out@.map_values(|x: String| x@);
        let ghost prev_cur = cur@;
        if c == sep {
            let done = cur;
            out.push(done);
            cur = String::new();
            proof {
                assert(out@.map_values(|x: String| x@) =~= prev_out.push(prev_cur));
                assert(out@.map_values(|x: String| x@).push(cur@) =~= prev_out.push(prev_cur).push(Seq::empty()));
            }
        } else {
            cur.append(s.substring_char(i, i + 1));
            proof {
                assert(s@.subrange(i as int, i + 1) =~= seq![c]);
                assert(cur@ =~= prev_cur.push(c));
                assert(out@.map_values(|x: String| x@).push(cur@) =~= prev_out.push(prev_cur).update(
                    prev_out.len() as int,
                    prev_cur.push(c),
                ));
            }
        }
        i = i + 1;
    }
    assert(s@.subrange(0, len as int) =~= s@);
    out.push(cur);
    out
}

/// `s` with each leftmost non-overlapping occurrence of the non-empty `pat` replaced by
/// `to`, as `str::replace` gives it.
pub open spec fn replace_spec(s: Seq<char>, pat: Seq<char>, to: Seq<char>) -> Seq<char>
    decreases s.len(),
{
    if pat.len() == 0 || s.len() == 0 {
        s
    } else if pat.len() <= s.len() && s.subrange(0, pat.len() as int) == pat {
        to + replace_spec(s.subrange(pat.len() as int, s.len() as int), pat, to)
    } else {
        seq![s[0]] + replace_spec(s.drop_first(), pat, to)
    }
}

/// Replaces every occurrence of `pat` (not empty) by `to`.
pub fn replace_text(s: &str, pat: &str, to: &str) -> (r: String)
    requires
        pat@.len() > 0,
    ensures
        r@ == replace_spec(s@, pat@, to@),
{
    let len = s.unicode_len();
    let pl = pat.unicode_len();
    let mut out = String::new();
    let mut i: usize = 0;
    assert(s@.subrange(0, len as int) =~= s@);
    while i < len
        invariant
            len == s@.len(),
            pl == pat@.len(),
            pl > 0,
            i <= len,
            out@ + replace_spec(s@.subrange(i as int, len as int), pat@, to@) == replace_spec(s@, pat@, to@),
        decreases len - i,
    {
        let rest = s.substring_char(i, len);
        let ghost r = rest@;
        let ghost prev = out@;
        if starts_with(rest, pat) {
            out.append(to);
            proof {
                let tail = replace_spec(s@.subrange(i + pl, len as int), pat@, to@);
                assert(r.subrange(pl as int, r.len() as int) =~= s@.subrange(i + pl, len as int));
                assert((prev + to@) + tail =~= prev + (to@ + tail));
            }
            i = i + pl;
        } else {
            let c = s.substring_char(i, i + 1);
            out.append(c);
            proof {
                let tail = replace_spec(s@.subrange(i + 1, len as int), pat@, to@);
                assert(r.drop_first() =~= s@.subrange(i + 1, len as int));
                assert(c@ =~= seq![r[0]]);
                assert((prev + c@) + tail =~= prev + (seq![r[0]] + tail));
            }
            i = i + 1;
        }
    }
    proof {
        assert(s@.subrange(len as int, len as int) =~= Seq::<char>::empty());
        assert(out@ + Seq::<char>::empty() =~= out@);
    }
    out
}

/// The value of a decimal numeral, as `usize::from_str` reads it: an optional `+`, then
/// one or more digits, with a value that fits.
pub open spec fn digits_value(s: Seq<char>) -> nat
    decreases s.len(),
{
    if s.len() == 0 {
        0
    } else {
        digits_value(s.drop_last()) * 10 + ((s.last() as u32) - ('0' as u32)) as nat
    }
}

pub open spec fn all_digits(s: Seq<char>) -> bool {
    forall|i: int| 0 <= i < s.len() ==> '0' <= #[trigger] s[i] && s[i] <= '9'
}

pub open spec fn parse_usize_spec(s: Seq<char>) -> Option<nat> {
    let d = if s.len() > 0 && s[0] == '+' {
        s.drop_first()
    } else {
        s
    };
    if d.len() > 0 && all_digits(d) && digits_value(d) <= usize::MAX {
        Some(digits_value(d))
    } else {
        None
    }
}

proof fn lemma_digits_monotone(s: Seq<char>, n: int)
    requires
        0 <= n <= s.len(),
        all_digits(s),
    ensures
        digits_value(s.subrange(0, n)) <= digits_value(s),
    decreases s.len() - n,
{
    if n < s.len() {
        let t = s.drop_last();
        assert(all_digits(t)) by {
            assert forall|i: int| 0 <= i < t.len() implies '0' <= #[trigger] t[i] && t[i] <= '9' by {
                assert(t[i] == s[i]);
            }
        }
        lemma_digits_monotone(t, n);
        assert(t.subrange(0, n) =~= s.subrange(0, n));
    } else {
        assert(s.subrange(0, n) =~= s);
    }
}

/// Reads a decimal `usize`.
#[verifier::loop_isolation(false)]
pub fn parse_usize(s: &str) -> (r: Option<usize>)
    ensures
        match parse_usize_spec(s@) {
            Some(v) => r == Some(v as usize),
            None => r.is_none(),
        },
{
    let len = s.unicode_len();
    let start: usize = if len > 0 && s.get_char(0) == '+' { 1 } else { 0 };
    let ghost d = if s@.len() > 0 && s@[0] == '+' { s@.drop_first() } else { s@ };
    assert(d =~= s@.subrange(start as int, len as int));
    if start == len {
        return None;
    }
    let mut value: usize = 0;
    let mut i: usize = start;
    while i < len
        invariant
            len == s@.len(),
            start <= i <= len,
            d == s@.subrange(start as int, len as int),
            all_digits(d.subrange(0, i - start)),
            value as nat == digits_value(d.subrange(0, i - start)),
        decreases len - i,
    {
        let c = s.get_char(i);
        proof {
            assert(d.subrange(0, i + 1 - start).drop_last() =~= d.subrange(0, i - start));
            assert(d[i - start] == c);
        }
        if !('0' <= c && c <= '9') {
            proof {
                assert(!('0' <= d[i - start] && d[i - start] <= '9'));
                assert(!all_digits(d));
                assert(parse_usize_spec(s@).is_none());
            }
            return None;
        }
        let digit = (c as u32 - '0' as u32) as usize;
        if value > (usize::MAX - digit) / 10 {
            proof {
                assert(all_digits(d.subrange(0, i + 1 - start))) by {
                    let t = d.subrange(0, i + 1 - start);
                    assert forall|k: int| 0 <= k < t.len() implies '0' <= #[trigger] t[k] && t[k] <= '9' by {
                        if k < i - start {
                            assert(t[k] == d.subrange(0, i - start)[k]);
                        }
                    }
                }
                assert(digits_value(d.subrange(0, i + 1 - start)) > usize::MAX) by (nonlinear_arith)
                    requires
                        digits_value(d.subrange(0, i + 1 - start)) == value * 10 + digit,
                        value > (usize::MAX - digit) / 10,
                        digit <= 9,
                {}
                if all_digits(d) {
                    lemma_digits_monotone(d, i + 1 - start);
                }
                assert(parse_usize_spec(s@).is_none());
            }
            return None;
        }
        value = value * 10 + digit;
        proof {
            let t = d.subrange(0, i + 1 - start);
            assert forall|k: int| 0 <= k < t.len() implies '0' <= #[trigger] t[k] && t[k] <= '9' by {
                if k < i - start {
                    assert(t[k] == d.subrange(0, i - start)[k]);
                }
            }
        }
        i = i + 1;
    }
    assert(d.subrange(0, len - start) =~= d);
    Some(value)
}

} // verus!

//! Operations on text: replacing every occurrence of a pattern, quoting for
//! the shell, writing numbers in decimal, and trimming code blocks.
use vstd::prelude::*;
use vstd::string::*;
use vstd::std_specs::iter::IteratorSpec;

verus! {

broadcast use vstd::string::group_string_axioms;

/// The characters of a string.
pub fn chars_of(s: &str) -> (r: Vec<char>)
    ensures
        r@ == s@,
{
    let mut out: Vec<char> = Vec::new();
    let chars = s.chars();
    proof {
        assert(chars.remaining() == s@);
    }
    for c in it: chars
        invariant
            it.seq() == s@,
            out@ == s@.take(it.index() as int),
    {
        let ghost i = it.index();
        proof {
            assert(c == s@[i as int]);
        }
        out.push(c);
        proof {
            assert(out@ =~= s@.take(i + 1));
        }
    }
    proof {
        assert(s@.take(s@.len() as int) =~= s@);
    }
    out
}

/// `s` with every occurrence of `pat` replaced by `rep`, occurrences found
/// from the left without overlapping.
pub open spec fn replace_all(s: Seq<char>, pat: Seq<char>, rep: Seq<char>) -> Seq<char>
    decreases s.len(),
{
    if pat.len() == 0 || s.len() < pat.len() {
        s
    } else if s.take(pat.len() as int) == pat {
        rep + replace_all(s.skip(pat.len() as int), pat, rep)
    } else {
        seq![s[0]] + replace_all(s.skip(1), pat, rep)
    }
}

/// Whether `pat` occurs in `s` at `i`.
pub fn occurs_at(s: &Vec<char>, pat: &Vec<char>, i: usize) -> (r: bool)
    requires
        i + pat@.len() <= s@.len(),
    ensures
        r == (s@.subrange(i as int, i + pat@.len()) == pat@),
{
    let _n = s.len();
    let mut j: usize = 0;
    while j < pat.len()
        invariant
            i + pat@.len() <= s@.len(),
            s@.len() <= usize::MAX,
            j <= pat@.len(),
            forall|k: int| 0 <= k < j ==> s@[i + k] == pat@[k],
        decreases pat@.len() - j,
    {
        if s[i + j] != pat[j] {
            proof {
                assert(s@.subrange(i as int, i + pat@.len())[j as int] != pat@[j as int]);
            }
            return false;
        }
        j = j + 1;
    }
    proof {
        assert(s@.subrange(i as int, i + pat@.len()) =~= pat@);
    }
    true
}

/// `s` with every occurrence of `pat` replaced by `rep`; `pat` is not empty.
pub fn replace(s: &str, pat: &str, rep: &str) -> (r: String)
    requires
        pat@.len() > 0,
    ensures
        r@ == replace_all(s@, pat@, rep@),
{
    let v = chars_of(s);
    let p = chars_of(pat);
    let n = v.len();
    let m = p.len();
    let mut out = String::new();
    let mut i: usize = 0;
    let mut start: usize = 0;
    proof {
        assert(s@.skip(0) =~= s@);
        assert(out@ + s@.subrange(0, 0) =~= Seq::<char>::empty());
    }
    while i < n && m <= n - i
        invariant
            v@ == s@,
            p@ == pat@,
            n == v@.len(),
            m == p@.len(),
            m > 0,
            start <= i <= n,
            out@ + s@.subrange(start as int, i as int) + replace_all(s@.skip(i as int), pat@, rep@)
                == replace_all(s@, pat@, rep@),
        decreases n - i,
    {
        proof {
            assert(s@.skip(i as int).take(m as int) =~= s@.subrange(i as int, i + m));
        }
        if occurs_at(&v, &p, i) {
            let piece = s.substring_char(start, i);
            out.append(piece);
            out.append(rep);
            proof {
                assert(s@.skip(i as int).skip(m as int) =~= s@.skip(i + m));
                assert(out@ + s@.subrange((i + m) as int, (i + m) as int) =~= out@);
            }
            i = i + m;
            start = i;
        } else {
            proof {
                assert(s@.skip(i as int).skip(1) =~= s@.skip(i + 1));
                assert(s@.subrange(start as int, i + 1) =~= s@.subrange(start as int, i as int)
                    + seq![s@[i as int]]);
            }
            i = i + 1;
        }
    }
    proof {
        assert(s@.skip(i as int) =~= s@.subrange(i as int, n as int));
        assert(s@.subrange(start as int, i as int) + s@.subrange(i as int, n as int) =~= s@.subrange(
            start as int,
            n as int,
        ));
    }
    let rest = s.substring_char(start, n);
    out.append(rest);
    out
}

/// `s` in single quotes for the shell, each single quote in it written `'"'"'`.
pub open spec fn quoted(s: Seq<char>) -> Seq<char> {
    seq!['\''] + replace_all(s, seq!['\''], seq!['\'', '"', '\'', '"', '\'']) + seq!['\'']
}

/// Quotes `s` for the shell.
pub fn sh_quote(s: &str) -> (r: String)
    ensures
        r@ == quoted(s@),
{
    proof {
        reveal_strlit("'");
        reveal_strlit("'\"'\"'");
    }
    let body = replace(s, "'", "'\"'\"'");
    let mut r = String::from_str("'");
    r.append(body.as_str());
    r.append("'");
    proof {
        assert("'"@ =~= seq!['\'']);
        assert("'\"'\"'"@ =~= seq!['\'', '"', '\'', '"', '\'']);
    }
    r
}

/// The decimal digit of `d`.
pub open spec fn digit(d: int) -> char {
    if d == 0 { '0' } else if d == 1 { '1' } else if d == 2 { '2' } else if d == 3 { '3' } else if d == 4 {
        '4'
    } else if d == 5 { '5' } else if d == 6 { '6' } else if d == 7 { '7' } else if d == 8 { '8' } else {
        '9'
    }
}

/// `n` written in decimal.
pub open spec fn decimal(n: nat) -> Seq<char>
    decreases n,
{
    if n < 10 {
        seq![digit(n as int)]
    } else {
        decimal(n / 10) + seq![digit((n % 10) as int)]
    }
}

/// The one-character string of digit `d`.
fn digit_str(d: u32) -> (r: &'static str)
    requires
        d < 10,
    ensures
        r@ == seq![digit(d as int)],
{
    proof {
        reveal_strlit("0");
        reveal_strlit("1");
        reveal_strlit("2");
        reveal_strlit("3");
        reveal_strlit("4");
        reveal_strlit("5");
        reveal_strlit("6");
        reveal_strlit("7");
        reveal_strlit("8");
        reveal_strlit("9");
    }
    let r = if d == 0 { "0" } else if d == 1 { "1" } else if d == 2 { "2" } else if d == 3 { "3" } else if d
        == 4 {
        "4"
    } else if d == 5 { "5" } else if d == 6 { "6" } else if d == 7 { "7" } else if d == 8 { "8" } else {
        "9"
    };
    assert(r@ =~= seq![digit(d as int)]);
    r
}

/// `n` written in decimal.
pub fn to_decimal(n: u128) -> (r: String)
    ensures
        r@ == decimal(n as nat),
    decreases n,
{
    if n < 10 {
        String::from_str(digit_str(n as u32))
    } else {
        let mut r = to_decimal(n / 10);
        r.append(digit_str((n % 10) as u32));
        r
    }
}

/// Whether `c` is white space: has the Unicode `White_Space` property.
pub open spec fn is_ws(c: char) -> bool {
    let u = c as u32;
    (0x9 <= u <= 0xd) || u == 0x20 || u == 0x85 || u == 0xa0 || u == 0x1680 || (0x2000 <= u
        <= 0x200a) || u == 0x2028 || u == 0x2029 || u == 0x202f || u == 0x205f || u == 0x3000
}

/// Whether `c` is white space.
pub fn is_whitespace(c: char) -> (r: bool)
    ensures
        r == is_ws(c),
{
    let u = c as u32;
    (0x9 <= u && u <= 0xd) || u == 0x20 || u == 0x85 || u == 0xa0 || u == 0x1680 || (0x2000 <= u
        && u <= 0x200a) || u == 0x2028 || u == 0x2029 || u == 0x202f || u == 0x205f || u == 0x3000
}

/// `s` with characters popped off its end up to and including the last
/// `}`; nothing is left when it has none.
pub open spec fn pop_through_brace(s: Seq<char>) -> Seq<char>
    decreases s.len(),
{
    if s.len() == 0 {
        s
    } else if s.last() == '}' {
        s.drop_last()
    } else {
        pop_through_brace(s.drop_last())
    }
}

/// `s` without its trailing white space.
pub open spec fn trim_end_ws(s: Seq<char>) -> Seq<char>
    decreases s.len(),
{
    if s.len() > 0 && is_ws(s.last()) {
        trim_end_ws(s.drop_last())
    } else {
        s
    }
}

/// `s` without its leading characters that satisfy `p`.
pub open spec fn skip_while(s: Seq<char>, p: spec_fn(char) -> bool) -> Seq<char>
    decreases s.len(),
{
    if s.len() > 0 && p(s[0]) {
        skip_while(s.skip(1), p)
    } else {
        s
    }
}

/// Eats `s` from the end up to and including the last closing brace, then
/// the white space before it.
pub fn erode_from_back(s: &str) -> (r: String)
    ensures
        r@ == trim_end_ws(pop_through_brace(s@)),
{
    let v = chars_of(s);
    let mut k = v.len();
    proof {
        assert(s@.take(k as int) =~= s@);
    }
    while k > 0 && v[k - 1] != '}'
        invariant
            v@ == s@,
            k <= v@.len(),
            pop_through_brace(s@.take(k as int)) == pop_through_brace(s@),
        decreases k,
    {
        proof {
            assert(s@.take(k as int).drop_last() =~= s@.take(k - 1));
        }
        k = k - 1;
    }
    let mut q = if k > 0 {
        proof {
            assert(s@.take(k as int).drop_last() =~= s@.take(k - 1));
        }
        k - 1
    } else {
        proof {
            assert(s@.take(0) =~= Seq::<char>::empty());
        }
        0
    };
    let ghost cut = s@.take(q as int);
    while q > 0 && is_whitespace(v[q - 1])
        invariant
            v@ == s@,
            q <= v@.len(),
            trim_end_ws(s@.take(q as int)) == trim_end_ws(cut),
        decreases q,
    {
        proof {
            assert(s@.take(q as int).drop_last() =~= s@.take(q - 1));
        }
        q = q - 1;
    }
    proof {
        if q > 0 {
            assert(s@.take(q as int).last() == v@[q - 1]);
        }
    }
    let piece = s.substring_char(0, q);
    proof {
        assert(piece@ =~= s@.take(q as int));
    }
    String::from_str(piece)
}

/// The first index from `i` on whose character does not satisfy `p`, with
/// what `skip_while` leaves.
fn skip_from(v: &Vec<char>, i: usize, which: u8) -> (j: usize)
    requires
        i <= v@.len(),
        which < 3,
    ensures
        i <= j <= v@.len(),
        skip_while(v@.skip(i as int), char_class(which)) == v@.skip(j as int),
{
    let mut j = i;
    while j < v.len() && in_class(v[j], which)
        invariant
            i <= j <= v@.len(),
            which < 3,
            skip_while(v@.skip(i as int), char_class(which)) == skip_while(
                v@.skip(j as int),
                char_class(which),
            ),
        decreases v@.len() - j,
    {
        proof {
            assert(v@.skip(j as int).skip(1) =~= v@.skip(j + 1));
        }
        j = j + 1;
    }
    proof {
        if j < v@.len() {
            assert(v@.skip(j as int)[0] == v@[j as int]);
        }
    }
    j
}

/// White space, an opening brace, or a newline.
pub open spec fn char_class(which: u8) -> spec_fn(char) -> bool {
    if which == 0 {
        |c: char| is_ws(c)
    } else if which == 1 {
        |c: char| c == '{'
    } else {
        |c: char| c == '\n'
    }
}

/// Whether `c` is in class `which`.
fn in_class(c: char, which: u8) -> (r: bool)
    requires
        which < 3,
    ensures
        r == char_class(which)(c),
{
    if which == 0 {
        is_whitespace(c)
    } else if which == 1 {
        c == '{'
    } else {
        c == '\n'
    }
}

/// Eats `s` from the front: leading white space, then opening braces, then newlines.
pub fn erode_from_front(s: &str) -> (r: String)
    ensures
        r@ == skip_while(
            skip_while(skip_while(s@, char_class(0)), char_class(1)),
            char_class(2),
        ),
{
    let v = chars_of(s);
    let a = skip_from(&v, 0, 0);
    let b = skip_from(&v, a, 1);
    let c = skip_from(&v, b, 2);
    proof {
        assert(v@.skip(0) =~= s@);
    }
    let piece = s.substring_char(c, v.len());
    proof {
        assert(piece@ =~= v@.skip(c as int));
    }
    String::from_str(piece)
}

/// The contents of a block written with braces: eaten from the front, then from the back.
pub fn erode_block(s: &str) -> (r: String)
    ensures
        r@ == trim_end_ws(
            pop_through_brace(
                skip_while(skip_while(skip_while(s@, char_class(0)), char_class(1)), char_class(2)),
            ),
        ),
{
    let front = erode_from_front(s);
    erode_from_back(front.as_str())
}

} // verus!

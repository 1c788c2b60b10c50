use vstd::prelude::*;
use vstd::string::StrSliceExecFns;

verus! {

/// The pieces of `s` between occurrences of `sep`, in order; there is always at least one.
pub open spec fn split(s: Seq<char>, sep: char) -> Seq<Seq<char>>
    decreases s.len(),
{
    if s.len() == 0 {
        seq![Seq::<char>::empty()]
    } else {
        let head = split(s.drop_last(), sep);
        if s.last() == sep {
            head.push(Seq::<char>::empty())
        } else {
            head.update(head.len() - 1, head.last().push(s.last()))
        }
    }
}

/// An ASCII decimal digit.
pub open spec fn is_dec_digit(c: char) -> bool {
    '0' <= c && c <= '9'
}

/// An ASCII hexadecimal digit, in either case.
pub open spec fn is_hex_digit(c: char) -> bool {
    ('0' <= c && c <= '9') || ('a' <= c && c <= 'f') || ('A' <= c && c <= 'F')
}

/// The value of a string of decimal digits.
pub open spec fn digits_value(g: Seq<char>) -> nat
    decreases g.len(),
{
    if g.len() == 0 {
        0
    } else {
        digits_value(g.drop_last()) * 10 + ((g.last() as u32 - '0' as u32) as nat)
    }
}

/// One to three decimal digits whose value is at most 255 (leading zeros allowed).
pub open spec fn is_octet(g: Seq<char>) -> bool {
    &&& 1 <= g.len() <= 3
    &&& forall|i: int| 0 <= i < g.len() ==> is_dec_digit(#[trigger] g[i])
    &&& digits_value(g) <= 255
}

/// One to four hexadecimal digits, in either case.
pub open spec fn is_hex_group(g: Seq<char>) -> bool {
    &&& 1 <= g.len() <= 4
    &&& forall|i: int| 0 <= i < g.len() ==> is_hex_digit(#[trigger] g[i])
}

/// Dotted-decimal form: exactly four octets separated by periods.
pub open spec fn is_ipv4(s: Seq<char>) -> bool {
    let groups = split(s, '.');
    &&& groups.len() == 4
    &&& forall|i: int| 0 <= i < 4 ==> is_octet(#[trigger] groups[i])
}

/// Full colon-hexadecimal form: exactly eight groups separated by colons, no `::` shorthand.
pub open spec fn is_ipv6(s: Seq<char>) -> bool {
    let groups = split(s, ':');
    &&& groups.len() == 8
    &&& forall|i: int| 0 <= i < 8 ==> is_hex_group(#[trigger] groups[i])
}

/// Splits `s` at every `sep`.
fn split_chars(s: &str, sep: char) -> (r: Vec<Vec<char>>)
    ensures
        r@.len() == split(s@, sep).len(),
        forall|i: int| 0 <= i < r@.len() ==> #[trigger] r@[i]@ == split(s@, sep)[i],
{
    let n = s.unicode_len();
    let mut groups: Vec<Vec<char>> = Vec::new();
    let mut cur: Vec<char> = Vec::new();
    let mut i: usize = 0;
    assert(s@.subrange(0, 0) =~= Seq::<char>::empty());
    while i < n
        invariant
            n == s@.len(),
            0 <= i <= n,
            groups@.len() + 1 == split(s@.subrange(0, i as int), sep).len(),
            forall|j: int| 0 <= j < groups@.len() ==> #[trigger] groups@[j]@ == split(
                s@.subrange(0, i as int),
                sep,
            )[j],
            cur@ == split(s@.subrange(0, i as int), sep).last(),
        decreases n - i,
    {
        let c = s.get_char(i);
        let ghost prev = s@.subrange(0, i as int);
        assert(s@.subrange(0, i + 1).drop_last() =~= prev);
        if c == sep {
            groups.push(cur);
            cur = Vec::new();
        } else {
            cur.push(c);
        }
        i = i + 1;
    }
    assert(s@.subrange(0, n as int) =~= s@);
    groups.push(cur);
    groups
}

/// Whether `g` is an octet of the dotted-decimal form.
fn is_octet_chars(g: &Vec<char>) -> (r: bool)
    ensures
        r == is_octet(g@),
{
    if g.len() < 1 || g.len() > 3 {
        return false;
    }
    let mut value: u32 = 0;
    let mut i: usize = 0;
    while i < g.len()
        invariant
            1 <= g@.len() <= 3,
            0 <= i <= g@.len(),
            forall|j: int| 0 <= j < i ==> is_dec_digit(#[trigger] g@[j]),
            value == digits_value(g@.subrange(0, i as int)),
            value < 1000,
            i <= 1 ==> value < 10,
            i <= 2 ==> value < 100,
        decreases g@.len() - i,
    {
        let c = g[i];
        if !('0' <= c && c <= '9') {
            return false;
        }
        assert(g@.subrange(0, i + 1).drop_last() =~= g@.subrange(0, i as int));
        value = value * 10 + (c as u32 - '0' as u32);
        i = i + 1;
    }
    assert(g@.subrange(0, i as int) =~= g@);
    value <= 255
}

/// Whether `g` is a group of the colon-hexadecimal form.
fn is_hex_group_chars(g: &Vec<char>) -> (r: bool)
    ensures
        r == is_hex_group(g@),
{
    if g.len() < 1 || g.len() > 4 {
        return false;
    }
    let mut i: usize = 0;
    while i < g.len()
        invariant
            0 <= i <= g@.len(),
            forall|j: int| 0 <= j < i ==> is_hex_digit(#[trigger] g@[j]),
        decreases g@.len() - i,
    {
        let c = g[i];
        if !(('0' <= c && c <= '9') || ('a' <= c && c <= 'f') || ('A' <= c && c <= 'F')) {
            return false;
        }
        i = i + 1;
    }
    true
}

/// Whether `text` is a numeric address: the dotted-decimal form or the full colon-hexadecimal
/// form. Host names and abbreviated forms are refused.
pub fn is_valid_ip(text: &str) -> (r: bool)
    ensures
        r == (is_ipv4(text@) || is_ipv6(text@)),
{
    let v4 = split_chars(text, '.');
    let mut ok4 = v4.len() == 4;
    let mut i: usize = 0;
    while ok4 && i < 4
        invariant
            ok4 ==> v4@.len() == 4,
            0 <= i <= 4,
            v4@.len() == split(text@, '.').len(),
            forall|j: int| 0 <= j < v4@.len() ==> #[trigger] v4@[j]@ == split(text@, '.')[j],
            ok4 == (v4@.len() == 4 && forall|j: int|
                0 <= j < i ==> is_octet(#[trigger] split(text@, '.')[j])),
        decreases 4 - i,
    {
        ok4 = is_octet_chars(&v4[i]);
        i = i + 1;
    }
    if ok4 {
        return true;
    }
    let v6 = split_chars(text, ':');
    let mut ok6 = v6.len() == 8;
    let mut k: usize = 0;
    while ok6 && k < 8
        invariant
            ok6 ==> v6@.len() == 8,
            0 <= k <= 8,
            v6@.len() == split(text@, ':').len(),
            forall|j: int| 0 <= j < v6@.len() ==> #[trigger] v6@[j]@ == split(text@, ':')[j],
            ok6 == (v6@.len() == 8 && forall|j: int|
                0 <= j < k ==> is_hex_group(#[trigger] split(text@, ':')[j])),
        decreases 8 - k,
    {
        ok6 = is_hex_group_chars(&v6[k]);
        k = k + 1;
    }
    ok6
}

proof fn lemma_split_nonempty(s: Seq<char>, sep: char)
    ensures
        split(s, sep).len() >= 1,
    decreases s.len(),
{
    if s.len() > 0 {
        lemma_split_nonempty(s.drop_last(), sep);
    }
}

/// A string without the separator is a single piece.
proof fn lemma_split_without_sep(s: Seq<char>, sep: char)
    requires
        forall|i: int| 0 <= i < s.len() ==> s[i] != sep,
    ensures
        split(s, sep) == seq![s],
    decreases s.len(),
{
    if s.len() > 0 {
        lemma_split_without_sep(s.drop_last(), sep);
        assert(s.drop_last().push(s.last()) =~= s);
        assert(split(s, sep) =~= seq![s]);
    } else {
        assert(s =~= Seq::<char>::empty());
    }
}

/// Splitting at a separator placed between two strings splits each of them.
proof fn lemma_split_join(x: Seq<char>, y: Seq<char>, sep: char)
    ensures
        split(x + seq![sep] + y, sep) == split(x, sep) + split(y, sep),
    decreases y.len(),
{
    let z = x + seq![sep] + y;
    if y.len() == 0 {
        assert(z.drop_last() =~= x);
        assert(split(y, sep) =~= seq![Seq::<char>::empty()]);
        assert(split(z, sep) =~= split(x, sep) + split(y, sep));
    } else {
        lemma_split_join(x, y.drop_last(), sep);
        lemma_split_nonempty(y.drop_last(), sep);
        assert(z.drop_last() =~= x + seq![sep] + y.drop_last());
        assert(split(z, sep) =~= split(x, sep) + split(y, sep));
    }
}

/// Four pieces joined by `sep`.
pub open spec fn join4(a: Seq<char>, b: Seq<char>, c: Seq<char>, d: Seq<char>, sep: char) -> Seq<
    char,
> {
    a + seq![sep] + b + seq![sep] + c + seq![sep] + d
}

/// Eight pieces joined by colons.
pub open spec fn join8(g: Seq<Seq<char>>) -> Seq<char>
    recommends
        g.len() == 8,
{
    join4(g[0], g[1], g[2], g[3], ':') + seq![':'] + join4(g[4], g[5], g[6], g[7], ':')
}

/// Every character is a decimal digit.
pub open spec fn all_dec_digits(g: Seq<char>) -> bool {
    forall|i: int| 0 <= i < g.len() ==> is_dec_digit(#[trigger] g[i])
}

proof fn lemma_split_join4(a: Seq<char>, b: Seq<char>, c: Seq<char>, d: Seq<char>, sep: char)
    requires
        forall|i: int| 0 <= i < a.len() ==> a[i] != sep,
        forall|i: int| 0 <= i < b.len() ==> b[i] != sep,
        forall|i: int| 0 <= i < c.len() ==> c[i] != sep,
        forall|i: int| 0 <= i < d.len() ==> d[i] != sep,
    ensures
        split(join4(a, b, c, d, sep), sep) == seq![a, b, c, d],
{
    lemma_split_without_sep(a, sep);
    lemma_split_without_sep(b, sep);
    lemma_split_without_sep(c, sep);
    lemma_split_without_sep(d, sep);
    lemma_split_join(a, b, sep);
    lemma_split_join(a + seq![sep] + b, c, sep);
    lemma_split_join(a + seq![sep] + b + seq![sep] + c, d, sep);
    assert(split(join4(a, b, c, d, sep), sep) =~= seq![a, b, c, d]);
}

/// Four octets joined by periods form an accepted address.
pub proof fn lemma_dotted_quad_accepted(a: Seq<char>, b: Seq<char>, c: Seq<char>, d: Seq<char>)
    requires
        is_octet(a),
        is_octet(b),
        is_octet(c),
        is_octet(d),
    ensures
        is_ipv4(join4(a, b, c, d, '.')),
{
    lemma_split_join4(a, b, c, d, '.');
    let g = split(join4(a, b, c, d, '.'), '.');
    assert(g[0] == a && g[1] == b && g[2] == c && g[3] == d);
}

/// Four groups of decimal digits, one of them worth 256 or more, or joined by anything but a
/// period, never form an accepted address of either kind.
pub proof fn lemma_dotted_quad_refused(
    a: Seq<char>,
    b: Seq<char>,
    c: Seq<char>,
    d: Seq<char>,
    sep: char,
)
    requires
        all_dec_digits(a),
        all_dec_digits(b),
        all_dec_digits(c),
        all_dec_digits(d),
        sep != '.' || digits_value(a) >= 256 || digits_value(b) >= 256 || digits_value(c) >= 256
            || digits_value(d) >= 256,
    ensures
        !is_ipv4(join4(a, b, c, d, sep)),
        !is_ipv6(join4(a, b, c, d, sep)),
{
    let s = join4(a, b, c, d, sep);
    assert forall|i: int| 0 <= i < s.len() implies s[i] == sep || is_dec_digit(
        #[trigger] s[i],
    ) by {
        if i < a.len() {
        } else if i < a.len() + 1 + b.len() {
            if i > a.len() {
                assert(s[i] == b[i - a.len() - 1]);
            }
        } else if i < a.len() + 1 + b.len() + 1 + c.len() {
            if i > a.len() + 1 + b.len() {
                assert(s[i] == c[i - a.len() - b.len() - 2]);
            }
        } else if i > a.len() + 1 + b.len() + 1 + c.len() {
            assert(s[i] == d[i - a.len() - b.len() - c.len() - 3]);
        }
    }
    if sep == '.' {
        lemma_split_join4(a, b, c, d, '.');
        let g = split(s, '.');
        assert(g[0] == a && g[1] == b && g[2] == c && g[3] == d);
        assert(forall|i: int| 0 <= i < s.len() ==> s[i] != ':');
        lemma_split_without_sep(s, ':');
    } else {
        assert(forall|i: int| 0 <= i < s.len() ==> s[i] != '.');
        lemma_split_without_sep(s, '.');
        if sep == ':' {
            lemma_split_join4(a, b, c, d, ':');
        } else {
            assert(forall|i: int| 0 <= i < s.len() ==> s[i] != ':');
            lemma_split_without_sep(s, ':');
        }
    }
}

/// Eight groups of one to four hexadecimal digits joined by colons form an accepted address.
pub proof fn lemma_full_hex_accepted(g: Seq<Seq<char>>)
    requires
        g.len() == 8,
        forall|i: int| 0 <= i < 8 ==> is_hex_group(#[trigger] g[i]),
    ensures
        is_ipv6(join8(g)),
{
    assert forall|k: int, i: int| 0 <= k < 8 && 0 <= i < g[k].len() implies #[trigger] g[k][i]
        != ':' by {
        assert(is_hex_group(g[k]));
        assert(is_hex_digit(g[k][i]));
    }
    lemma_split_join4(g[0], g[1], g[2], g[3], ':');
    lemma_split_join4(g[4], g[5], g[6], g[7], ':');
    lemma_split_join(join4(g[0], g[1], g[2], g[3], ':'), join4(g[4], g[5], g[6], g[7], ':'), ':');
    assert(split(join8(g), ':') =~= g);
}

/// A string of hexadecimal digits and colons that holds the `::` shorthand is never accepted.
pub proof fn lemma_compressed_hex_refused(x: Seq<char>, y: Seq<char>)
    requires
        forall|i: int| 0 <= i < x.len() ==> is_hex_digit(#[trigger] x[i]) || x[i] == ':',
        forall|i: int| 0 <= i < y.len() ==> is_hex_digit(#[trigger] y[i]) || y[i] == ':',
    ensures
        !is_ipv4(x + seq![':', ':'] + y),
        !is_ipv6(x + seq![':', ':'] + y),
{
    let s = x + seq![':', ':'] + y;
    let tail = seq![':'] + y;
    assert(s =~= x + seq![':'] + tail);
    assert(tail =~= Seq::<char>::empty() + seq![':'] + y);
    lemma_split_join(x, tail, ':');
    lemma_split_join(Seq::<char>::empty(), y, ':');
    assert(split(Seq::<char>::empty(), ':') =~= seq![Seq::<char>::empty()]);
    lemma_split_nonempty(y, ':');
    let g = split(s, ':');
    let k = split(x, ':').len() as int;
    assert(g[k] == Seq::<char>::empty());
    if g.len() == 8 {
        assert(!is_hex_group(g[k]));
    }
    assert forall|i: int| 0 <= i < s.len() implies #[trigger] s[i] != '.' by {
        if i < x.len() {
            assert(is_hex_digit(x[i]) || x[i] == ':');
        } else if i >= x.len() + 2 {
            assert(s[i] == y[i - x.len() - 2]);
            assert(is_hex_digit(y[i - x.len() - 2]) || y[i - x.len() - 2] == ':');
        }
    }
    lemma_split_without_sep(s, '.');
}

} // verus!

//! Text building blocks: decimal numbers and the splitting of text into lines.

use vstd::prelude::*;
use vstd::string::{StrSliceExecFns, StringExecFns};

verus! {

/// The decimal digit `d` as a character.
pub open spec fn digit_char(d: nat) -> char {
    "0123456789"@[d as int]
}

/// The decimal representation of `n`, without sign or leading zeros.
pub open spec fn decimal(n: nat) -> Seq<char>
    decreases n,
{
    if n < 10 {
        seq![digit_char(n)]
    } else {
        decimal(n / 10).push(digit_char(n % 10))
    }
}

/// Appends the decimal representation of `n` to `out`.
pub fn push_decimal(out: &mut String, n: u64)
    ensures
        final(out)@ == old(out)@ + decimal(n as nat),
    decreases n,
{
    let digits = "0123456789";
    proof {
        reveal_strlit("0123456789");
    }
    if n >= 10 {
        push_decimal(out, n / 10);
    }
    let d = (n % 10) as usize;
    let piece = digits.substring_char(d, d + 1);
    assert(piece@ =~= seq![digit_char((n % 10) as nat)]);
    out.append(piece);
    proof {
        if n >= 10 {
            assert(decimal(n as nat) == decimal((n / 10) as nat).push(digit_char((n % 10) as nat)));
        }
    }
    assert(final(out)@ =~= old(out)@ + decimal(n as nat)) by {
        if n < 10 {
            assert(decimal(n as nat) == seq![digit_char(n as nat)]);
        }
    }
}

/// The decimal representation of `n` as a new string.
pub fn decimal_string(n: u64) -> (res: String)
    ensures
        res@ == decimal(n as nat),
{
    let mut s = String::new();
    push_decimal(&mut s, n);
    assert(s@ =~= decimal(n as nat));
    s
}

/// The index of the first line feed in `s`, or the length of `s` if there is none.
pub open spec fn newline_index(s: Seq<char>) -> nat
    decreases s.len(),
{
    if s.len() == 0 {
        0
    } else if s[0] == '\n' {
        0
    } else {
        1 + newline_index(s.drop_first())
    }
}

/// A line without the carriage return that preceded its line feed.
pub open spec fn strip_cr(l: Seq<char>) -> Seq<char> {
    if l.len() > 0 && l.last() == '\r' {
        l.drop_last()
    } else {
        l
    }
}

/// The lines of `s`: it is split at each line feed, a carriage return just
/// before a line feed is dropped, and a final line feed ends the last line
/// without starting an empty one. The empty text has no lines.
pub open spec fn lines(s: Seq<char>) -> Seq<Seq<char>>
    decreases s.len(),
{
    if s.len() == 0 {
        Seq::empty()
    } else {
        let k = newline_index(s);
        if k >= s.len() {
            seq![s]
        } else {
            seq![strip_cr(s.take(k as int))] + lines(s.skip(k as int + 1))
        }
    }
}

proof fn lemma_newline_index_at(t: Seq<char>, k: int)
    requires
        0 <= k <= t.len(),
        forall|j: int| 0 <= j < k ==> t[j] != '\n',
        k < t.len() ==> t[k] == '\n',
    ensures
        newline_index(t) == k,
    decreases k,
{
    if k > 0 {
        let u = t.drop_first();
        assert forall|j: int| 0 <= j < k - 1 implies u[j] != '\n' by {
            assert(u[j] == t[j + 1]);
        }
        if k < t.len() {
            assert(u[k - 1] == t[k]);
        }
        lemma_newline_index_at(u, k - 1);
    }
}

/// The lines of `s`, as [`lines`] defines them.
pub fn split_lines(s: &str) -> (res: Vec<String>)
    ensures
        res@.len() == lines(s@).len(),
        forall|i: int| 0 <= i < res@.len() ==> #[trigger] res@[i]@ == lines(s@)[i],
{
    let n = s.unicode_len();
    let mut res: Vec<String> = Vec::new();
    let mut start: usize = 0;
    let mut i: usize = 0;
    let ghost mut done: Seq<Seq<char>> = Seq::empty();
    assert(s@.skip(0) =~= s@);
    assert(lines(s@) =~= done + lines(s@.skip(0)));
    while i < n
        invariant
            n == s@.len(),
            start <= i <= n,
            forall|j: int| start <= j < i ==> s@[j] != '\n',
            res@.len() == done.len(),
            forall|k: int| 0 <= k < res@.len() ==> #[trigger] res@[k]@ == done[k],
            lines(s@) == done + lines(s@.skip(start as int)),
        decreases n - i,
    {
        let c = s.get_char(i);
        if c == '\n' {
            let ghost t = s@.skip(start as int);
            proof {
                assert forall|j: int| 0 <= j < i - start implies t[j] != '\n' by {
                    assert(t[j] == s@[start + j]);
                }
                assert(t[i - start] == s@[i as int]);
                lemma_newline_index_at(t, i - start);
            }
            let mut end = i;
            if end > start {
                let last = s.get_char(end - 1);
                if last == '\r' {
                    end = end - 1;
                }
            }
            let piece = s.substring_char(start, end);
            let line = String::from_str(piece);
            proof {
                let l = t.take(i - start);
                assert(l =~= s@.subrange(start as int, i as int));
                assert(line@ =~= strip_cr(l));
                assert(t.skip(i - start + 1) =~= s@.skip(i + 1));
                assert(lines(s@.skip(start as int)) == seq![strip_cr(l)] + lines(
                    s@.skip(i + 1),
                ));
                done = done.push(line@);
            }
            res.push(line);
            start = i + 1;
            assert(lines(s@) =~= done + lines(s@.skip(start as int)));
        }
        i = i + 1;
    }
    if start < n {
        let ghost t = s@.skip(start as int);
        proof {
            assert forall|j: int| 0 <= j < t.len() implies t[j] != '\n' by {
                assert(t[j] == s@[start + j]);
            }
            lemma_newline_index_at(t, t.len() as int);
        }
        let piece = s.substring_char(start, n);
        let line = String::from_str(piece);
        proof {
            assert(line@ =~= t);
            assert(lines(t) == seq![t]);
            done = done.push(line@);
        }
        res.push(line);
        assert(lines(s@) =~= done);
    } else {
        assert(s@.skip(start as int) =~= Seq::<char>::empty());
        assert(lines(s@) =~= done);
    }
    res
}


/// Whether two texts are equal.
pub fn str_eq(a: &str, b: &str) -> (res: bool)
    ensures
        res == (a@ == b@),
{
    let x = a.to_owned();
    let y = b.to_owned();
    x == y
}

/// Whether `s` begins with `p`.
pub fn starts_with(s: &str, p: &str) -> (res: bool)
    ensures
        res == (p@.len() <= s@.len() && s@.take(p@.len() as int) == p@),
{
    let n = s.unicode_len();
    let m = p.unicode_len();
    if m > n {
        return false;
    }
    let mut i: usize = 0;
    while i < m
        invariant
            i <= m,
            m == p@.len(),
            n == s@.len(),
            m <= n,
            forall|j: int| 0 <= j < i ==> s@[j] == p@[j],
        decreases m - i,
    {
        if s.get_char(i) != p.get_char(i) {
            assert(s@.take(m as int)[i as int] != p@[i as int]);
            return false;
        }
        i = i + 1;
    }
    assert(s@.take(m as int) =~= p@);
    true
}

/// The code of the character `c`, with an upper-case ASCII letter taken as
/// its lower-case form.
pub open spec fn ascii_lower(c: char) -> u32 {
    if 'A' <= c <= 'Z' {
        ((c as u32) + 32) as u32
    } else {
        c as u32
    }
}

/// Whether `a` and `b` are equal when ASCII letters are compared without
/// regard to case.
pub open spec fn eq_ignore_ascii_case(a: Seq<char>, b: Seq<char>) -> bool {
    a.len() == b.len() && forall|i: int| 0 <= i < a.len() ==> ascii_lower(a[i]) == ascii_lower(b[i])
}

fn lower_char(c: char) -> (res: u32)
    ensures
        res == ascii_lower(c),
{
    if 'A' <= c && c <= 'Z' {
        (c as u32) + 32
    } else {
        c as u32
    }
}

/// Whether `a` and `b` are equal up to the case of ASCII letters.
pub fn str_eq_ignore_ascii_case(a: &str, b: &str) -> (res: bool)
    ensures
        res == eq_ignore_ascii_case(a@, b@),
{
    let n = a.unicode_len();
    if n != b.unicode_len() {
        return false;
    }
    let mut i: usize = 0;
    while i < n
        invariant
            i <= n,
            n == a@.len(),
            n == b@.len(),
            forall|j: int| 0 <= j < i ==> ascii_lower(a@[j]) == ascii_lower(b@[j]),
        decreases n - i,
    {
        if lower_char(a.get_char(i)) != lower_char(b.get_char(i)) {
            return false;
        }
        i = i + 1;
    }
    true
}

/// Whether `::` starts at position `i` of `s`.
pub open spec fn colons_at(s: Seq<char>, i: int) -> bool {
    0 <= i && i + 1 < s.len() && s[i] == ':' && s[i + 1] == ':'
}

/// The text after the last `::` in `s`, or all of `s` if it holds none.
pub open spec fn after_last_colons(s: Seq<char>) -> Seq<char> {
    if exists|i: int| colons_at(s, i) {
        let i = choose|i: int| colons_at(s, i) && forall|j: int| colons_at(s, j) ==> j <= i;
        s.skip(i + 2)
    } else {
        s
    }
}

/// The text after the last `::` in `s`, or all of `s` if it holds none.
pub fn after_last_double_colon(s: &str) -> (res: String)
    ensures
        res@ == after_last_colons(s@),
{
    let n = s.unicode_len();
    let mut i: usize = n;
    while i >= 2
        invariant
            i <= n,
            n == s@.len(),
            forall|j: int| i - 1 <= j < n ==> !colons_at(s@, j),
        decreases i,
    {
        if s.get_char(i - 2) == ':' && s.get_char(i - 1) == ':' {
            let k = i - 2;
            assert(colons_at(s@, k as int));
            assert(forall|j: int| colons_at(s@, j) ==> j <= k);
            let ghost w = choose|w: int| colons_at(s@, w) && forall|j: int| colons_at(s@, j) ==> j <= w;
            assert(w == k);
            assert(s@.subrange(i as int, n as int) =~= s@.skip(w + 2));
            return s.substring_char(i, n).to_owned();
        }
        i = i - 1;
    }
    assert(forall|j: int| !colons_at(s@, j));
    s.to_owned()
}


/// The hexadecimal digit `d` as a lower-case character.
pub open spec fn hex_char(d: nat) -> char {
    "0123456789abcdef"@[d as int]
}

/// The lower-case hexadecimal representation of `n`, without leading zeros.
pub open spec fn hex(n: nat) -> Seq<char>
    decreases n,
{
    if n < 16 {
        seq![hex_char(n)]
    } else {
        hex(n / 16).push(hex_char(n % 16))
    }
}

/// Appends the hexadecimal representation of `n` to `out`.
pub fn push_hex(out: &mut String, n: u32)
    ensures
        final(out)@ == old(out)@ + hex(n as nat),
    decreases n,
{
    let digits = "0123456789abcdef";
    proof {
        reveal_strlit("0123456789abcdef");
    }
    if n >= 16 {
        push_hex(out, n / 16);
    }
    let d = (n % 16) as usize;
    let piece = digits.substring_char(d, d + 1);
    assert(piece@ =~= seq![hex_char((n % 16) as nat)]);
    out.append(piece);
    assert(final(out)@ =~= old(out)@ + hex(n as nat)) by {
        if n < 16 {
            assert(hex(n as nat) == seq![hex_char(n as nat)]);
        } else {
            assert(hex(n as nat) == hex((n / 16) as nat).push(hex_char((n % 16) as nat)));
        }
    }
}

/// How a character is written inside a quoted debug string: quotes,
/// backslashes and the usual control characters get a backslash escape,
/// other ASCII control characters a `\u{..}` escape, and every other
/// character stands for itself.
pub open spec fn escape_char(c: char) -> Seq<char> {
    if c == '"' {
        "\\\""@
    } else if c == '\\' {
        "\\\\"@
    } else if c == '\n' {
        "\\n"@
    } else if c == '\r' {
        "\\r"@
    } else if c == '\t' {
        "\\t"@
    } else if c == '\0' {
        "\\0"@
    } else if (c as u32) < 0x20 || (c as u32) == 0x7f {
        "\\u{"@ + hex(c as u32 as nat) + "}"@
    } else {
        seq![c]
    }
}

/// The characters of `s` escaped one by one.
pub open spec fn escaped(s: Seq<char>) -> Seq<char>
    decreases s.len(),
{
    if s.len() == 0 {
        Seq::empty()
    } else {
        escaped(s.drop_last()) + escape_char(s.last())
    }
}

/// `s` as its debug form shows it: escaped, between double quotes.
pub open spec fn debug_quoted(s: Seq<char>) -> Seq<char> {
    "\""@ + escaped(s) + "\""@
}

fn push_escaped_char(out: &mut String, c: char, piece: &str)
    requires
        piece@ == seq![c],
    ensures
        final(out)@ == old(out)@ + escape_char(c),
{
    if c == '"' {
        out.append("\\\"");
    } else if c == '\\' {
        out.append("\\\\");
    } else if c == '\n' {
        out.append("\\n");
    } else if c == '\r' {
        out.append("\\r");
    } else if c == '\t' {
        out.append("\\t");
    } else if c == '\0' {
        out.append("\\0");
    } else if (c as u32) < 0x20 || (c as u32) == 0x7f {
        out.append("\\u{");
        push_hex(out, c as u32);
        out.append("}");
    } else {
        out.append(piece);
    }
}

/// Appends the debug form of `s` to `out`.
pub fn push_debug_str(out: &mut String, s: &str)
    ensures
        final(out)@ == old(out)@ + debug_quoted(s@),
{
    out.append("\"");
    let ghost o1 = out@;
    let n = s.unicode_len();
    let mut i: usize = 0;
    while i < n
        invariant
            i <= n,
            n == s@.len(),
            out@ == o1 + escaped(s@.take(i as int)),
        decreases n - i,
    {
        assert(s@.take(i + 1).drop_last() =~= s@.take(i as int));
        let piece = s.substring_char(i, i + 1);
        assert(piece@ =~= seq![s@[i as int]]);
        push_escaped_char(out, s.get_char(i), piece);
        i = i + 1;
        assert(out@ =~= o1 + escaped(s@.take(i as int)));
    }
    assert(s@.take(n as int) =~= s@);
    out.append("\"");
    assert(final(out)@ =~= old(out)@ + debug_quoted(s@));
}

} // verus!

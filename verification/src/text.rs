//! Text utilities over `String`/`str` with contracts on their character views,
//! and the lexicographic order on paths that the sorted indexes use.
use vstd::prelude::*;
use vstd::utf8::{decode_utf8, valid_utf8};

verus! {

/// Lexicographic order on character sequences, by code point.
/// (Equal to the byte order of the UTF-8 encodings that `str`'s `Ord` uses.)
pub open spec fn seq_lt(a: Seq<char>, b: Seq<char>) -> bool
    decreases a.len(),
{
    if a.len() == 0 {
        b.len() > 0
    } else if b.len() == 0 {
        false
    } else if a[0] != b[0] {
        (a[0] as int) < (b[0] as int)
    } else {
        seq_lt(a.drop_first(), b.drop_first())
    }
}

pub proof fn lemma_seq_lt_irreflexive(a: Seq<char>)
    ensures
        !seq_lt(a, a),
    decreases a.len(),
{
    if a.len() > 0 {
        lemma_seq_lt_irreflexive(a.drop_first());
    }
}

pub proof fn lemma_seq_lt_asymmetric(a: Seq<char>, b: Seq<char>)
    ensures
        seq_lt(a, b) ==> !seq_lt(b, a),
    decreases a.len(),
{
    if a.len() > 0 && b.len() > 0 && a[0] == b[0] {
        lemma_seq_lt_asymmetric(a.drop_first(), b.drop_first());
    }
}

pub proof fn lemma_seq_lt_transitive(a: Seq<char>, b: Seq<char>, c: Seq<char>)
    ensures
        seq_lt(a, b) && seq_lt(b, c) ==> seq_lt(a, c),
    decreases a.len(),
{
    if a.len() > 0 && b.len() > 0 && c.len() > 0 {
        lemma_seq_lt_transitive(a.drop_first(), b.drop_first(), c.drop_first());
    }
}

pub proof fn lemma_seq_lt_total(a: Seq<char>, b: Seq<char>)
    ensures
        a != b ==> seq_lt(a, b) || seq_lt(b, a),
    decreases a.len(),
{
    if a.len() > 0 && b.len() > 0 {
        lemma_seq_lt_total(a.drop_first(), b.drop_first());
        if a[0] == b[0] && a.drop_first() == b.drop_first() {
            assert(a =~= seq![a[0]] + a.drop_first());
            assert(b =~= seq![b[0]] + b.drop_first());
        }
    } else if a.len() == 0 && b.len() == 0 {
        assert(a =~= b);
    }
}

/// Skipping an equal prefix does not change the order.
proof fn lemma_seq_lt_skip(a: Seq<char>, b: Seq<char>, i: int)
    requires
        0 <= i <= a.len(),
        i <= b.len(),
        a.take(i) == b.take(i),
    ensures
        seq_lt(a, b) == seq_lt(a.skip(i), b.skip(i)),
    decreases i,
{
    if i > 0 {
        assert(a[0] == a.take(i)[0]);
        assert(b[0] == b.take(i)[0]);
        assert(a.drop_first().take(i - 1) =~= a.take(i).drop_first());
        assert(b.drop_first().take(i - 1) =~= b.take(i).drop_first());
        lemma_seq_lt_skip(a.drop_first(), b.drop_first(), i - 1);
        assert(a.drop_first().skip(i - 1) =~= a.skip(i));
        assert(b.drop_first().skip(i - 1) =~= b.skip(i));
    } else {
        assert(a.skip(0) =~= a);
        assert(b.skip(0) =~= b);
    }
}

/// Three-way comparison result of two paths.
#[derive(Clone, Copy, Debug, PartialEq, Eq, Structural)]
pub enum PathOrder {
    Less,
    Equal,
    Greater,
}

/// The characters of `s`, in order.
pub fn chars_of(s: &str) -> (v: Vec<char>)
    ensures
        v@ == s@,
{
    let mut v: Vec<char> = Vec::new();
    for c in it: s.chars()
        invariant
            v@ == it.seq().take(it.index() as int),
            it.seq() == s@,
    {
        v.push(c);
    }
    v
}

/// Compares two character sequences lexicographically.
pub fn compare_chars(a: &Vec<char>, b: &Vec<char>) -> (r: PathOrder)
    ensures
        r == PathOrder::Less <==> seq_lt(a@, b@),
        r == PathOrder::Equal <==> a@ == b@,
        r == PathOrder::Greater <==> seq_lt(b@, a@),
{
    let mut i: usize = 0;
    while i < a.len() && i < b.len()
        invariant
            i <= a.len(),
            i <= b.len(),
            a@.take(i as int) == b@.take(i as int),
        decreases a.len() - i,
    {
        if a[i] != b[i] {
            proof {
                lemma_seq_lt_skip(a@, b@, i as int);
                lemma_seq_lt_skip(b@, a@, i as int);
                assert(a@.skip(i as int)[0] == a@[i as int]);
                assert(b@.skip(i as int)[0] == b@[i as int]);
                assert(a@ != b@ ) by { assert(a@[i as int] != b@[i as int]); }
            }
            if a[i] < b[i] {
                return PathOrder::Less;
            } else {
                return PathOrder::Greater;
            }
        }
        proof {
            assert(a@.take(i + 1) =~= a@.take(i as int).push(a@[i as int]));
            assert(b@.take(i + 1) =~= b@.take(i as int).push(b@[i as int]));
        }
        i = i + 1;
    }
    proof {
        lemma_seq_lt_skip(a@, b@, i as int);
        lemma_seq_lt_skip(b@, a@, i as int);
        if i == a.len() {
            assert(a@.take(i as int) =~= a@);
        }
        if i == b.len() {
            assert(b@.take(i as int) =~= b@);
        }
        assert(a@.skip(i as int).len() == a.len() - i);
        assert(b@.skip(i as int).len() == b.len() - i);
    }
    if a.len() < b.len() {
        proof { assert(a@ != b@) by { assert(a@.len() != b@.len()); } }
        PathOrder::Less
    } else if a.len() > b.len() {
        proof { assert(a@ != b@) by { assert(a@.len() != b@.len()); } }
        PathOrder::Greater
    } else {
        proof { assert(a@ =~= b@); lemma_seq_lt_irreflexive(a@); }
        PathOrder::Equal
    }
}

/// Compares two strings lexicographically by character.
pub fn compare_str(a: &str, b: &str) -> (r: PathOrder)
    ensures
        r == PathOrder::Less <==> seq_lt(a@, b@),
        r == PathOrder::Equal <==> a@ == b@,
        r == PathOrder::Greater <==> seq_lt(b@, a@),
{
    let va = chars_of(a);
    let vb = chars_of(b);
    compare_chars(&va, &vb)
}

} // verus!

verus! {

/// Whether two strings hold the same characters.
pub fn str_eq(a: &str, b: &str) -> (r: bool)
    ensures
        r == (a@ == b@),
{
    compare_str(a, b) == PathOrder::Equal
}

} // verus!

verus! {

/// `String::push` appends one character.
pub assume_specification[ String::push ](s: &mut String, ch: char)
    ensures
        final(s)@ == old(s)@.push(ch),
;

/// The character of a decimal digit.
pub open spec fn digit_char(d: int) -> char {
    if d == 0 {
        '0'
    } else if d == 1 {
        '1'
    } else if d == 2 {
        '2'
    } else if d == 3 {
        '3'
    } else if d == 4 {
        '4'
    } else if d == 5 {
        '5'
    } else if d == 6 {
        '6'
    } else if d == 7 {
        '7'
    } else if d == 8 {
        '8'
    } else {
        '9'
    }
}

/// Decimal digits of a natural number, most significant first, no leading zero.
pub open spec fn digits_of(n: nat) -> Seq<char>
    decreases n,
{
    if n < 10 {
        seq![digit_char(n as int)]
    } else {
        digits_of(n / 10).push(digit_char((n % 10) as int))
    }
}

/// Decimal text of an integer, with a leading '-' when negative.
pub open spec fn decimal_text(n: int) -> Seq<char> {
    if n < 0 {
        seq!['-'] + digits_of((-n) as nat)
    } else {
        digits_of(n as nat)
    }
}

fn digit(d: u64) -> (c: char)
    requires
        d < 10,
    ensures
        c == digit_char(d as int),
{
    if d == 0 {
        '0'
    } else if d == 1 {
        '1'
    } else if d == 2 {
        '2'
    } else if d == 3 {
        '3'
    } else if d == 4 {
        '4'
    } else if d == 5 {
        '5'
    } else if d == 6 {
        '6'
    } else if d == 7 {
        '7'
    } else if d == 8 {
        '8'
    } else {
        '9'
    }
}

fn push_digits(s: &mut String, m: u64)
    ensures
        final(s)@ == old(s)@ + digits_of(m as nat),
    decreases m,
{
    if m >= 10 {
        push_digits(s, m / 10);
    }
    s.push(digit(m % 10));
    proof {
        if m >= 10 {
            assert(old(s)@ + digits_of(m as nat) =~= old(s)@ + digits_of((m / 10) as nat) + seq![digit_char((m % 10) as int)]);
        } else {
            assert(m % 10 == m);
        }
    }
}

/// Appends the decimal text of `n` to `s`.
pub fn push_decimal(s: &mut String, n: i64)
    ensures
        final(s)@ == old(s)@ + decimal_text(n as int),
{
    if n < 0 {
        s.push('-');
        let m: u64 = (0i128 - (n as i128)) as u64;
        push_digits(s, m);
        proof {
            assert(old(s)@ + decimal_text(n as int) =~= old(s)@.push('-') + digits_of(m as nat));
        }
    } else {
        push_digits(s, n as u64);
    }
}

/// `prefix` followed by the decimal text of `n`.
pub fn prefixed_decimal(prefix: &str, n: i64) -> (s: String)
    ensures
        s@ == prefix@ + decimal_text(n as int),
{
    let mut s = prefix.to_owned();
    push_decimal(&mut s, n);
    s
}

} // verus!

verus! {

/// Whether a character has the Unicode `White_Space` property (what
/// `char::is_whitespace` tests, and what `str::trim` removes).
pub open spec fn is_white_space(c: char) -> bool {
    let u = c as u32;
    ||| 0x09 <= u <= 0x0D
    ||| u == 0x20
    ||| u == 0x85
    ||| u == 0xA0
    ||| u == 0x1680
    ||| 0x2000 <= u <= 0x200A
    ||| u == 0x2028
    ||| u == 0x2029
    ||| u == 0x202F
    ||| u == 0x205F
    ||| u == 0x3000
}

/// `s` without its leading whitespace.
pub open spec fn trim_start(s: Seq<char>) -> Seq<char>
    decreases s.len(),
{
    if s.len() > 0 && is_white_space(s[0]) {
        trim_start(s.drop_first())
    } else {
        s
    }
}

/// `s` without its trailing whitespace.
pub open spec fn trim_end(s: Seq<char>) -> Seq<char>
    decreases s.len(),
{
    if s.len() > 0 && is_white_space(s.last()) {
        trim_end(s.drop_last())
    } else {
        s
    }
}

/// `s` without its leading and trailing whitespace.
pub open spec fn trimmed(s: Seq<char>) -> Seq<char> {
    trim_end(trim_start(s))
}

/// Whether a character has the Unicode `White_Space` property.
fn white_space(c: char) -> (b: bool)
    ensures
        b == is_white_space(c),
{
    let u = c as u32;
    (0x09 <= u && u <= 0x0D) || u == 0x20 || u == 0x85 || u == 0xA0 || u == 0x1680 || (0x2000 <= u && u
        <= 0x200A) || u == 0x2028 || u == 0x2029 || u == 0x202F || u == 0x205F || u == 0x3000
}

/// The text without its leading and trailing whitespace (what `str::trim`
/// gives).
pub fn trim_text(s: &str) -> (r: String)
    ensures
        r@ == trimmed(s@),
{
    let c = chars_of(s);
    let n = c.len();
    let mut i: usize = 0;
    proof {
        assert(c@.subrange(0, n as int) =~= c@);
    }
    while i < n && white_space(c[i])
        invariant
            c@ == s@,
            n == c@.len(),
            i <= n,
            trim_start(s@) == trim_start(c@.subrange(i as int, n as int)),
        decreases n - i,
    {
        proof {
            let sub = c@.subrange(i as int, n as int);
            assert(sub[0] == c@[i as int]);
            assert(sub.drop_first() =~= c@.subrange(i + 1, n as int));
        }
        i = i + 1;
    }
    proof {
        let sub = c@.subrange(i as int, n as int);
        if i < n {
            assert(sub[0] == c@[i as int]);
        }
        assert(trim_start(sub) == sub);
    }
    let mut j: usize = n;
    while j > i && white_space(c[j - 1])
        invariant
            c@ == s@,
            n == c@.len(),
            i <= j <= n,
            trimmed(s@) == trim_end(c@.subrange(i as int, j as int)),
        decreases j,
    {
        proof {
            let sub = c@.subrange(i as int, j as int);
            assert(sub.last() == c@[j - 1]);
            assert(sub.drop_last() =~= c@.subrange(i as int, j - 1));
        }
        j = j - 1;
    }
    proof {
        let sub = c@.subrange(i as int, j as int);
        if j > i {
            assert(sub.last() == c@[j - 1]);
        }
        assert(trim_end(sub) == sub);
    }
    let mut r = String::new();
    let mut k: usize = i;
    while k < j
        invariant
            c@ == s@,
            n == c@.len(),
            i <= k <= j <= n,
            r@ == c@.subrange(i as int, k as int),
        decreases j - k,
    {
        r.push(c[k]);
        proof {
            assert(c@.subrange(i as int, k + 1) =~= c@.subrange(i as int, k as int).push(c@[k as int]));
        }
        k = k + 1;
    }
    r
}

/// `String::from_utf8_lossy` of a byte sequence that is not valid UTF-8.
pub uninterp spec fn utf8_lossy(bytes: Seq<u8>) -> Seq<char>;

/// Calls `String::from_utf8_lossy`. Claimed: the result is a function of the
/// bytes alone, and valid UTF-8 is decoded unchanged (invalid sequences become
/// U+FFFD, which is left unsaid).
#[verifier::external_body]
pub(crate) fn lossy_text(bytes: &[u8]) -> (r: String)
    ensures
        r@ == (if valid_utf8(bytes@) {
            decode_utf8(bytes@)
        } else {
            utf8_lossy(bytes@)
        }),
{
    String::from_utf8_lossy(bytes).into_owned()
}

/// Position of the first line feed in `s`, or its length when there is none.
pub open spec fn newline_pos(s: Seq<char>) -> nat
    decreases s.len(),
{
    if s.len() == 0 {
        0
    } else if s[0] == '\n' {
        0
    } else {
        1 + newline_pos(s.drop_first())
    }
}

pub proof fn lemma_newline_pos(s: Seq<char>)
    ensures
        newline_pos(s) <= s.len(),
        newline_pos(s) < s.len() ==> s[newline_pos(s) as int] == '\n',
        forall|j: int| 0 <= j < newline_pos(s) ==> s[j] != '\n',
    decreases s.len(),
{
    if s.len() > 0 && s[0] != '\n' {
        lemma_newline_pos(s.drop_first());
        assert forall|j: int| 0 <= j < newline_pos(s) implies s[j] != '\n' by {
            if j > 0 {
                assert(s[j] == s.drop_first()[j - 1]);
            }
        }
    }
}

/// A line without the carriage return of a "\r\n" ending.
pub open spec fn strip_cr(x: Seq<char>) -> Seq<char> {
    if x.len() > 0 && x.last() == '\r' {
        x.drop_last()
    } else {
        x
    }
}

/// The lines of a text, as `str::lines` splits it: at "\n" or "\r\n", with no
/// empty last line for a text that ends with a line ending.
pub open spec fn lines_spec(s: Seq<char>) -> Seq<Seq<char>>
    decreases s.len(),
{
    if s.len() == 0 {
        Seq::empty()
    } else if newline_pos(s) >= s.len() {
        seq![s]
    } else {
        seq![strip_cr(s.take(newline_pos(s) as int))] + lines_spec(s.skip(newline_pos(s) + 1int))
    }
}

proof fn lemma_newline_pos_prefix(cur: Seq<char>, rest: Seq<char>)
    requires
        forall|j: int| 0 <= j < cur.len() ==> cur[j] != '\n',
    ensures
        newline_pos(cur + seq!['\n'] + rest) == cur.len(),
        newline_pos(cur) == cur.len(),
    decreases cur.len(),
{
    if cur.len() > 0 {
        let t = cur.drop_first();
        assert forall|j: int| 0 <= j < t.len() implies t[j] != '\n' by {
            assert(t[j] == cur[j + 1]);
        }
        lemma_newline_pos_prefix(t, rest);
        assert((cur + seq!['\n'] + rest).drop_first() =~= t + seq!['\n'] + rest);
        assert((cur + seq!['\n'] + rest)[0] == cur[0]);
    } else {
        assert((cur + seq!['\n'] + rest)[0] == '\n');
    }
}

/// The string of the first `n` characters of `chars`.
pub fn string_from_chars(chars: &Vec<char>, n: usize) -> (s: String)
    requires
        n <= chars@.len(),
    ensures
        s@ == chars@.take(n as int),
{
    let mut s = String::new();
    let mut i: usize = 0;
    while i < n
        invariant
            i <= n <= chars@.len(),
            s@ == chars@.take(i as int),
        decreases n - i,
    {
        s.push(chars[i]);
        proof {
            assert(chars@.take(i + 1) =~= chars@.take(i as int).push(chars@[i as int]));
        }
        i = i + 1;
    }
    s
}

/// Splits a text into its lines, as `str::lines` does.
pub fn lines_of(text: &str) -> (lines: Vec<String>)
    ensures
        lines@.map_values(|l: String| l@) == lines_spec(text@),
{
    let chars = chars_of(text);
    let mut out: Vec<String> = Vec::new();
    let mut cur: Vec<char> = Vec::new();
    let mut i: usize = 0;
    proof {
        assert(cur@ + chars@.skip(0) =~= text@);
        assert(out@.map_values(|l: String| l@) + lines_spec(text@) =~= lines_spec(text@));
    }
    while i < chars.len()
        invariant
            chars@ == text@,
            i <= chars@.len(),
            forall|j: int| 0 <= j < cur@.len() ==> cur@[j] != '\n',
            out@.map_values(|l: String| l@) + lines_spec(cur@ + chars@.skip(i as int)) == lines_spec(text@),
        decreases chars.len() - i,
    {
        let c = chars[i];
        let ghost before = out@.map_values(|l: String| l@);
        let ghost old_cur = cur@;
        if c == '\n' {
            proof {
                lemma_newline_pos_prefix(old_cur, chars@.skip(i + 1));
                assert(old_cur + chars@.skip(i as int) =~= old_cur + seq!['\n'] + chars@.skip(i + 1));
                let s = old_cur + seq!['\n'] + chars@.skip(i + 1);
                assert(s.take(old_cur.len() as int) =~= old_cur);
                assert(s.skip(old_cur.len() + 1int) =~= chars@.skip(i + 1));
            }
            let n = cur.len();
            let line = if n > 0 && cur[n - 1] == '\r' {
                string_from_chars(&cur, n - 1)
            } else {
                string_from_chars(&cur, n)
            };
            proof {
                assert(line@ == strip_cr(old_cur)) by {
                    assert(old_cur.take(n as int) =~= old_cur);
                    if n > 0 {
                        assert(old_cur.take(n - 1) =~= old_cur.drop_last());
                    }
                }
            }
            out.push(line);
            cur = Vec::new();
            proof {
                assert(out@.map_values(|l: String| l@) =~= before.push(strip_cr(old_cur)));
                assert(Seq::<char>::empty() + chars@.skip(i + 1) =~= chars@.skip(i + 1));
                assert(before.push(strip_cr(old_cur)) + lines_spec(chars@.skip(i + 1)) =~= before + (seq![strip_cr(old_cur)] + lines_spec(chars@.skip(i + 1))));
            }
        } else {
            cur.push(c);
            proof {
                assert(cur@ + chars@.skip(i + 1) =~= old_cur + chars@.skip(i as int));
            }
        }
        i = i + 1;
    }
    proof {
        assert(cur@ + chars@.skip(i as int) =~= cur@);
        lemma_newline_pos_prefix(cur@, Seq::empty());
    }
    if cur.len() > 0 {
        let ghost before = out@.map_values(|l: String| l@);
        let n = cur.len();
        let last = string_from_chars(&cur, n);
        proof {
            assert(cur@.take(n as int) =~= cur@);
        }
        out.push(last);
        proof {
            assert(out@.map_values(|l: String| l@) =~= before + seq![cur@]);
        }
    } else {
        proof {
            assert(out@.map_values(|l: String| l@) + lines_spec(cur@) =~= out@.map_values(|l: String| l@));
        }
    }
    out
}

} // verus!

//! Character-level helpers shared by the text the library produces:
//! whitespace tests, decimal rendering of integers, line joining and
//! substring search, each with a specification over `Seq<char>`.
use vstd::prelude::*;

verus! {

/// The characters with the Unicode `White_Space` property, the set that
/// `char::is_whitespace` (and therefore `str::trim`) recognises.
pub open spec fn is_whitespace_char(c: char) -> bool {
    let u = c as u32;
    ||| 0x09 <= u <= 0x0D
    ||| u == 0x20
    ||| u == 0x85
    ||| u == 0xA0
    ||| u == 0x1680
    ||| 0x2000 <= u <= 0x200A
    ||| u == 0x2028
    ||| u == 0x2029
    ||| u == 0x202F
    ||| u == 0x205F
    ||| u == 0x3000
}

/// A text is blank when trimming its whitespace leaves nothing, that is,
/// when every character of it is whitespace.
pub open spec fn is_blank_text(s: Seq<char>) -> bool {
    forall|i: int| 0 <= i < s.len() ==> is_whitespace_char(#[trigger] s[i])
}

/// The ASCII digit for a value below ten.
pub open spec fn digit_char(d: nat) -> char {
    if d == 0 {
        '0'
    } else if d == 1 {
        '1'
    } else if d == 2 {
        '2'
    } else if d == 3 {
        '3'
    } else if d == 4 {
        '4'
    } else if d == 5 {
        '5'
    } else if d == 6 {
        '6'
    } else if d == 7 {
        '7'
    } else if d == 8 {
        '8'
    } else {
        '9'
    }
}

/// The decimal digits of a natural number, most significant first, without
/// leading zeros (zero itself is the single digit `0`).
pub open spec fn decimal_digits(n: nat) -> Seq<char>
    decreases n,
{
    if n < 10 {
        seq![digit_char(n)]
    } else {
        decimal_digits(n / 10).push(digit_char(n % 10))
    }
}

/// The decimal rendering of an integer, with a leading `-` when negative,
/// as `Display` writes it for Rust's integer types.
pub open spec fn decimal_text(n: int) -> Seq<char> {
    if n < 0 {
        seq!['-'] + decimal_digits((-n) as nat)
    } else {
        decimal_digits(n as nat)
    }
}

/// `n` zeros.
pub open spec fn zeros(n: nat) -> Seq<char> {
    Seq::new(n, |i: int| '0')
}

/// The decimal digits of `n`, preceded by zeros up to `width` characters.
pub open spec fn zero_padded(n: nat, width: nat) -> Seq<char> {
    let digits = decimal_digits(n);
    if digits.len() >= width {
        digits
    } else {
        zeros((width - digits.len()) as nat) + digits
    }
}

/// The lines joined with `sep` between consecutive lines (`[T]::join`).
pub open spec fn join_with(lines: Seq<Seq<char>>, sep: Seq<char>) -> Seq<char>
    decreases lines.len(),
{
    if lines.len() == 0 {
        Seq::empty()
    } else if lines.len() == 1 {
        lines[0]
    } else {
        join_with(lines.drop_last(), sep) + sep + lines.last()
    }
}

/// `pat` occurs in `s` starting at position `i`.
pub open spec fn occurs_at(s: Seq<char>, pat: Seq<char>, i: int) -> bool {
    0 <= i && i + pat.len() <= s.len() && s.subrange(i, i + pat.len()) =~= pat
}

/// `pat` occurs somewhere in `s` (`str::contains` with a string pattern).
pub open spec fn contains_text(s: Seq<char>, pat: Seq<char>) -> bool {
    exists|i: int| occurs_at(s, pat, i)
}

/// Joining two nonempty runs of lines puts one separator between them.
pub(crate) proof fn lemma_join_split(a: Seq<Seq<char>>, b: Seq<Seq<char>>, sep: Seq<char>)
    requires
        a.len() > 0,
        b.len() > 0,
    ensures
        join_with(a + b, sep) == join_with(a, sep) + sep + join_with(b, sep),
    decreases b.len(),
{
    let l = a + b;
    if b.len() == 1 {
        assert(l.drop_last() =~= a);
        assert(l.last() == b[0]);
    } else {
        lemma_join_split(a, b.drop_last(), sep);
        assert(l.drop_last() =~= a + b.drop_last());
        assert(l.last() == b.last());
        assert(join_with(a, sep) + sep + join_with(b, sep) =~= join_with(a, sep) + sep + join_with(
            b.drop_last(),
            sep,
        ) + sep + b.last());
    }
}

/// A line that has lines before and after it shows in the joined text
/// with a separator on each side.
pub(crate) proof fn lemma_join_shows_inner_line(
    a: Seq<Seq<char>>,
    x: Seq<char>,
    b: Seq<Seq<char>>,
    sep: Seq<char>,
)
    requires
        a.len() > 0,
        b.len() > 0,
    ensures
        contains_text(join_with(a + seq![x] + b, sep), sep + x + sep),
{
    lemma_join_split(a, seq![x] + b, sep);
    lemma_join_split(seq![x], b, sep);
    assert(a + seq![x] + b =~= a + (seq![x] + b));
    assert(join_with(seq![x], sep) == x);
    let ja = join_with(a, sep);
    let t = join_with(a + seq![x] + b, sep);
    let pat = sep + x + sep;
    assert(t =~= ja + pat + join_with(b, sep));
    assert(t.subrange(ja.len() as int, ja.len() + pat.len() as int) =~= pat);
    assert(occurs_at(t, pat, ja.len() as int));
}

/// `t` with every occurrence of the nonempty `pat`, found from the left and
/// without overlap, replaced by `rep` (`str::replace` with a string
/// pattern). An empty pattern leaves the text as it is here.
pub open spec fn replaced(t: Seq<char>, pat: Seq<char>, rep: Seq<char>) -> Seq<char>
    decreases t.len(),
{
    if t.len() == 0 || pat.len() == 0 {
        t
    } else if pat.len() <= t.len() && t.subrange(0, pat.len() as int) == pat {
        rep + replaced(t.subrange(pat.len() as int, t.len() as int), pat, rep)
    } else {
        seq![t[0]] + replaced(t.drop_first(), pat, rep)
    }
}

/// Where the text differs from the pattern somewhere within both, no
/// replacement starts at its first character.
pub(crate) proof fn lemma_replaced_front_mismatch(t: Seq<char>, pat: Seq<char>, rep: Seq<char>, j: int)
    requires
        0 <= j < pat.len(),
        j < t.len(),
        t[j] != pat[j],
    ensures
        replaced(t, pat, rep) == seq![t[0]] + replaced(t.drop_first(), pat, rep),
{
    if pat.len() <= t.len() {
        assert(t.subrange(0, pat.len() as int)[j] != pat[j]);
    }
}

/// A stretch with no character equal to the pattern's first one passes
/// through the replacement unchanged.
pub(crate) proof fn lemma_replaced_passes(u: Seq<char>, x: Seq<char>, pat: Seq<char>, rep: Seq<char>)
    requires
        pat.len() > 0,
        forall|i: int| 0 <= i < u.len() ==> #[trigger] u[i] != pat[0],
    ensures
        replaced(u + x, pat, rep) == u + replaced(x, pat, rep),
    decreases u.len(),
{
    if u.len() == 0 {
        assert(u + x =~= x);
        assert(u + replaced(x, pat, rep) =~= replaced(x, pat, rep));
    } else {
        let t = u + x;
        assert(t[0] == u[0]);
        lemma_replaced_front_mismatch(t, pat, rep, 0);
        assert(t.drop_first() =~= u.drop_first() + x);
        assert forall|i: int| 0 <= i < u.drop_first().len() implies #[trigger] u.drop_first()[i]
            != pat[0] by {
            assert(u.drop_first()[i] == u[i + 1]);
        }
        lemma_replaced_passes(u.drop_first(), x, pat, rep);
        assert(u =~= seq![u[0]] + u.drop_first());
        assert(seq![u[0]] + (u.drop_first() + replaced(x, pat, rep)) =~= u + replaced(x, pat, rep));
    }
}

/// Appends one character to a string (`String::push`).
#[verifier::external_body]
pub(crate) fn push_char(s: &mut String, c: char)
    ensures
        final(s)@ == old(s)@.push(c),
{
    s.push(c);
}

/// The characters of a string, in order.
pub fn chars_of(s: &str) -> (v: Vec<char>)
    ensures
        v@ == s@,
{
    let mut v: Vec<char> = Vec::new();
    for c in it: s.chars()
        invariant
            v@ == it.seq().take(it.index() as int),
    {
        v.push(c);
    }
    v
}

/// Appends every character of `v` to `s`.
pub fn push_chars(s: &mut String, v: &Vec<char>)
    ensures
        final(s)@ == old(s)@ + v@,
{
    let ghost start = s@;
    for i in 0..v.len()
        invariant
            s@ == start + v@.take(i as int),
    {
        push_char(s, v[i]);
        assert(v@.take(i + 1) =~= v@.take(i as int).push(v@[i as int]));
    }
    assert(v@.take(v.len() as int) =~= v@);
}

/// Whether a character is whitespace, as `char::is_whitespace` decides.
pub fn is_whitespace(c: char) -> (b: bool)
    ensures
        b == is_whitespace_char(c),
{
    let u = c as u32;
    (0x09 <= u && u <= 0x0D) || u == 0x20 || u == 0x85 || u == 0xA0 || u == 0x1680 || (0x2000
        <= u && u <= 0x200A) || u == 0x2028 || u == 0x2029 || u == 0x202F || u == 0x205F || u
        == 0x3000
}

/// Whether `s.trim().is_empty()`: every character of `s` is whitespace.
pub fn is_blank(s: &str) -> (b: bool)
    ensures
        b == is_blank_text(s@),
{
    let cs = chars_of(s);
    let mut i: usize = 0;
    while i < cs.len()
        invariant
            cs@ == s@,
            i <= cs.len(),
            forall|j: int| 0 <= j < i ==> is_whitespace_char(#[trigger] cs@[j]),
        decreases cs.len() - i,
    {
        if !is_whitespace(cs[i]) {
            return false;
        }
        i = i + 1;
    }
    true
}

fn digit(d: u64) -> (c: char)
    requires
        d < 10,
    ensures
        c == digit_char(d as nat),
{
    if d == 0 {
        '0'
    } else if d == 1 {
        '1'
    } else if d == 2 {
        '2'
    } else if d == 3 {
        '3'
    } else if d == 4 {
        '4'
    } else if d == 5 {
        '5'
    } else if d == 6 {
        '6'
    } else if d == 7 {
        '7'
    } else if d == 8 {
        '8'
    } else {
        '9'
    }
}

spec fn digits_or_empty(m: nat) -> Seq<char> {
    if m == 0 {
        Seq::empty()
    } else {
        decimal_digits(m)
    }
}

/// The decimal digits of `n`.
pub fn decimal_digits_of(n: u64) -> (v: Vec<char>)
    ensures
        v@ == decimal_digits(n as nat),
{
    let mut res: Vec<char> = Vec::new();
    res.push(digit(n % 10));
    let mut m: u64 = n / 10;
    assert(digits_or_empty(m as nat) + res@ =~= decimal_digits(n as nat));
    while m > 0
        invariant
            digits_or_empty(m as nat) + res@ =~= decimal_digits(n as nat),
        decreases m,
    {
        let d = digit(m % 10);
        let ghost old_res = res@;
        res.insert(0, d);
        assert(digits_or_empty(m as nat) == digits_or_empty((m / 10) as nat).push(d));
        assert(digits_or_empty((m / 10) as nat) + res@ =~= digits_or_empty(m as nat) + old_res);
        m = m / 10;
    }
    assert(res@ =~= digits_or_empty(m as nat) + res@);
    res
}

/// Appends the decimal rendering of an unsigned integer.
pub fn push_decimal_u64(s: &mut String, n: u64)
    ensures
        final(s)@ == old(s)@ + decimal_text(n as int),
{
    let digits = decimal_digits_of(n);
    push_chars(s, &digits);
}

/// Appends the decimal digits of `n`, preceded by zeros up to `width`
/// characters.
pub fn push_zero_padded(s: &mut String, n: u64, width: usize)
    ensures
        final(s)@ == old(s)@ + zero_padded(n as nat, width as nat),
{
    let digits = decimal_digits_of(n);
    let pad: usize = if digits.len() < width {
        width - digits.len()
    } else {
        0
    };
    let ghost start = s@;
    for i in 0..pad
        invariant
            s@ == start + zeros(i as nat),
    {
        push_char(s, '0');
        assert(zeros((i + 1) as nat) =~= zeros(i as nat).push('0'));
    }
    push_chars(s, &digits);
    assert(s@ =~= start + zero_padded(n as nat, width as nat));
}

/// Appends the decimal rendering of a signed integer.
pub fn push_decimal_i64(s: &mut String, n: i64)
    ensures
        final(s)@ == old(s)@ + decimal_text(n as int),
{
    if n < 0 {
        let magnitude: u64 = if n == i64::MIN {
            9223372036854775808u64
        } else {
            (-n) as u64
        };
        push_char(s, '-');
        let digits = decimal_digits_of(magnitude);
        push_chars(s, &digits);
        assert(s@ =~= old(s)@ + decimal_text(n as int));
    } else {
        push_decimal_u64(s, n as u64);
    }
}

/// Joins the lines with `sep` between consecutive lines.
pub fn join_lines(lines: &Vec<String>, sep: &str) -> (res: String)
    ensures
        res@ == join_with(lines@.map_values(|l: String| l@), sep@),
{
    let ghost views = lines@.map_values(|l: String| l@);
    let mut res = String::new();
    for i in 0..lines.len()
        invariant
            views == lines@.map_values(|l: String| l@),
            res@ == join_with(views.take(i as int), sep@),
    {
        assert(views.take(i + 1).drop_last() =~= views.take(i as int));
        if i != 0 {
            res.append(sep);
        } else {
            assert(res@ =~= Seq::<char>::empty());
        }
        res.append(lines[i].as_str());
        assert(views.take(i + 1).last() == lines@[i as int]@);
        assert(res@ =~= join_with(views.take(i + 1), sep@));
    }
    assert(views.take(lines.len() as int) =~= views);
    res
}

/// Whether `pat` occurs at position `i` of `s`.
fn matches_at(s: &Vec<char>, pat: &Vec<char>, i: usize) -> (b: bool)
    requires
        i + pat.len() <= s.len(),
    ensures
        b == occurs_at(s@, pat@, i as int),
{
    let mut j: usize = 0;
    while j < pat.len()
        invariant
            i + pat.len() <= s.len(),
            j <= pat.len(),
            forall|k: int| 0 <= k < j ==> s@[i + k] == pat@[k],
        decreases pat.len() - j,
    {
        if s[i + j] != pat[j] {
            assert(s@.subrange(i as int, i + pat.len())[j as int] != pat@[j as int]);
            return false;
        }
        j = j + 1;
    }
    assert(s@.subrange(i as int, i + pat.len()) =~= pat@);
    true
}

/// Whether `pat` occurs in `s` (`str::contains`).
pub fn contains(s: &str, pat: &str) -> (b: bool)
    ensures
        b == contains_text(s@, pat@),
{
    let sc = chars_of(s);
    let pc = chars_of(pat);
    if pc.len() > sc.len() {
        assert(forall|i: int| !occurs_at(s@, pat@, i));
        return false;
    }
    let last = sc.len() - pc.len();
    let mut i: usize = 0;
    while i <= last
        invariant
            sc@ == s@,
            pc@ == pat@,
            last == sc.len() - pc.len(),
            i <= last + 1,
            forall|k: int| 0 <= k < i ==> !occurs_at(s@, pat@, k),
        decreases last + 1 - i,
    {
        if matches_at(&sc, &pc, i) {
            return true;
        }
        i = i + 1;
    }
    assert forall|k: int| !occurs_at(s@, pat@, k) by {
        if 0 <= k < i {
        }
    }
    false
}

} // verus!

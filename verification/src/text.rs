use vstd::prelude::*;

verus! {

/// Unicode `White_Space` property: the characters that `char::is_whitespace`
/// accepts and that `str::trim` and `str::trim_start` strip.
pub open spec fn is_white_space(c: char) -> bool {
    let u = c as u32;
    ||| 0x09 <= u <= 0x0D
    ||| u == 0x20
    ||| u == 0x85
    ||| u == 0xA0
    ||| u == 0x1680
    ||| 0x2000 <= u <= 0x200A
    ||| u == 0x2028
    ||| u == 0x2029
    ||| u == 0x202F
    ||| u == 0x205F
    ||| u == 0x3000
}

/// Every character of `s` is white space (so `s.trim()` is empty).
pub open spec fn all_white_space(s: Seq<char>) -> bool {
    forall|i: int| 0 <= i < s.len() ==> is_white_space(#[trigger] s[i])
}

/// The first index at or after `i` that does not hold white space
/// (`s.len()` when there is none).
pub open spec fn white_space_end(s: Seq<char>, i: int) -> int
    decreases s.len() - i,
{
    if 0 <= i < s.len() && is_white_space(s[i]) {
        white_space_end(s, i + 1)
    } else {
        i
    }
}

/// The index just after the last character before `j` that is not white space
/// (`0` when there is none).
pub open spec fn white_space_start(s: Seq<char>, j: int) -> int
    decreases j,
{
    if 0 < j <= s.len() && is_white_space(s[j - 1]) {
        white_space_start(s, j - 1)
    } else {
        j
    }
}

/// `s` without its leading white space.
pub open spec fn trim_start(s: Seq<char>) -> Seq<char> {
    s.subrange(white_space_end(s, 0), s.len() as int)
}

/// `s` without its leading and trailing white space.
pub open spec fn trim(s: Seq<char>) -> Seq<char> {
    let a = white_space_end(s, 0);
    if a == s.len() {
        Seq::empty()
    } else {
        s.subrange(a, white_space_start(s, s.len() as int))
    }
}

/// The ASCII digit for `d`, for `d < 10`.
pub open spec fn digit_char(d: nat) -> char {
    (d + 48) as char
}

pub open spec fn is_ascii_digit(c: char) -> bool {
    48 <= (c as u32) <= 57
}

pub open spec fn digit_value(c: char) -> nat {
    ((c as u32) - 48) as nat
}

pub open spec fn all_digits(s: Seq<char>) -> bool {
    forall|i: int| 0 <= i < s.len() ==> is_ascii_digit(#[trigger] s[i])
}

/// The number that the decimal digits `s` spell.
pub open spec fn digits_value(s: Seq<char>) -> nat
    decreases s.len(),
{
    if s.len() == 0 {
        0
    } else {
        digits_value(s.drop_last()) * 10 + digit_value(s.last())
    }
}

/// The decimal notation of `n`, without sign or leading zeros.
pub open spec fn decimal(n: nat) -> Seq<char>
    decreases n,
{
    if n < 10 {
        seq![digit_char(n)]
    } else {
        decimal(n / 10).push(digit_char(n % 10))
    }
}

/// What `str::parse::<usize>` gives for `s`: an optional `+`, then one or more
/// ASCII digits whose value fits in `usize`; anything else is an error.
pub open spec fn parse_usize(s: Seq<char>) -> Option<nat> {
    let d = if s.len() > 0 && s[0] == '+' { s.drop_first() } else { s };
    if d.len() > 0 && all_digits(d) && digits_value(d) <= usize::MAX {
        Some(digits_value(d))
    } else {
        None
    }
}

/// The characters of `s`, in order.
pub fn chars_of(s: &str) -> (v: Vec<char>)
    ensures
        v@ == s@,
{
    let mut v: Vec<char> = Vec::new();
    for c in it: s.chars()
        invariant
            v@ == it.seq().take(it.index() as int),
            it.seq() == s@,
    {
        v.push(c);
    }
    v
}

/// Appends one character to a `String` (std's `String::push`).
#[verifier::external_body]
fn push_char(s: &mut String, c: char)
    ensures
        final(s)@ == old(s)@.push(c),
{
    s.push(c);
}

/// The string made of the characters of `v`.
pub fn string_of(v: &Vec<char>) -> (s: String)
    ensures
        s@ == v@,
{
    let mut s = String::new();
    for i in 0..v.len()
        invariant
            s@ == v@.take(i as int),
    {
        push_char(&mut s, v[i]);
        assert(v@.take(i + 1) =~= v@.take(i as int).push(v@[i as int]));
    }
    assert(v@.take(v@.len() as int) =~= v@);
    s
}

/// Whether `c` is white space (same answer as `char::is_whitespace`).
pub fn char_is_white_space(c: char) -> (r: bool)
    ensures
        r == is_white_space(c),
{
    let u = c as u32;
    (0x09 <= u && u <= 0x0D) || u == 0x20 || u == 0x85 || u == 0xA0 || u == 0x1680 || (0x2000
        <= u && u <= 0x200A) || u == 0x2028 || u == 0x2029 || u == 0x202F || u == 0x205F || u
        == 0x3000
}


/// `from + white_space_end(v[from..to], 0)`: where the white space that starts
/// at `from` ends, without passing `to`.
pub fn skip_white_space(v: &Vec<char>, from: usize, to: usize) -> (k: usize)
    requires
        from <= to <= v@.len(),
    ensures
        k == from + white_space_end(v@.subrange(from as int, to as int), 0),
        from <= k <= to,
{
    let ghost sub = v@.subrange(from as int, to as int);
    let mut j = from;
    while j < to && char_is_white_space(v[j])
        invariant
            from <= j <= to <= v@.len(),
            sub == v@.subrange(from as int, to as int),
            white_space_end(sub, j - from) == white_space_end(sub, 0),
        decreases to - j,
    {
        assert(sub[j - from] == v@[j as int]);
        j = j + 1;
    }
    proof {
        if j < to {
            assert(sub[j - from] == v@[j as int]);
        }
    }
    j
}

/// Whether `v[from..to]` is all white space.
pub fn all_white_space_in(v: &Vec<char>, from: usize, to: usize) -> (r: bool)
    requires
        from <= to <= v@.len(),
    ensures
        r == all_white_space(v@.subrange(from as int, to as int)),
{
    let mut j = from;
    while j < to
        invariant
            from <= j <= to <= v@.len(),
            all_white_space(v@.subrange(from as int, j as int)),
        decreases to - j,
    {
        if !char_is_white_space(v[j]) {
            assert(v@.subrange(from as int, to as int)[j - from] == v@[j as int]);
            return false;
        }
        assert forall|i: int| 0 <= i < j + 1 - from implies is_white_space(
            #[trigger] v@.subrange(from as int, j + 1)[i],
        ) by {
            if i < j - from {
                assert(v@.subrange(from as int, j as int)[i] == v@[from + i]);
            }
        }
        j = j + 1;
    }
    true
}

/// The digit character for `d`.
fn digit_to_char(d: usize) -> (c: char)
    requires
        d < 10,
    ensures
        c == digit_char(d as nat),
{
    let b: u8 = (d as u8) + 48;
    b as char
}

/// Appends the decimal notation of `n` to `out`.
pub fn push_decimal(out: &mut Vec<char>, n: usize)
    ensures
        final(out)@ == old(out)@ + decimal(n as nat),
    decreases n,
{
    if n < 10 {
        out.push(digit_to_char(n));
        assert(decimal(n as nat) =~= seq![digit_char(n as nat)]);
    } else {
        push_decimal(out, n / 10);
        out.push(digit_to_char(n % 10));
        assert(decimal(n as nat) == decimal((n / 10) as nat).push(digit_char((n % 10) as nat)));
        assert(out@ =~= old(out)@ + decimal(n as nat));
    }
}


/// `str::parse::<usize>` on the characters `v[from..to]`.
pub fn parse_usize_in(v: &Vec<char>, from: usize, to: usize) -> (r: Option<usize>)
    requires
        from <= to <= v@.len(),
    ensures
        match parse_usize(v@.subrange(from as int, to as int)) {
            Some(n) => r == Some(n as usize),
            None => r is None,
        },
{
    let ghost s = v@.subrange(from as int, to as int);
    let mut i = from;
    if i < to && v[i] == '+' {
        i = i + 1;
    }
    let start = i;
    assert((if s.len() > 0 && s[0] == '+' { s.drop_first() } else { s }) =~= v@.subrange(
        start as int,
        to as int,
    ));
    if start == to {
        return None;
    }
    let mut acc: usize = 0;
    let mut overflow = false;
    while i < to
        invariant
            from <= start <= i <= to <= v@.len(),
            s == v@.subrange(from as int, to as int),
            (if s.len() > 0 && s[0] == '+' { s.drop_first() } else { s }) == v@.subrange(
                start as int,
                to as int,
            ),
            all_digits(v@.subrange(start as int, i as int)),
            !overflow ==> acc == digits_value(v@.subrange(start as int, i as int)),
            overflow ==> digits_value(v@.subrange(start as int, i as int)) > usize::MAX,
        decreases to - i,
    {
        let u = v[i] as u32;
        if u < 48 || u > 57 {
            assert(v@.subrange(start as int, to as int)[i - start] == v@[i as int]);
            return None;
        }
        let d = (u - 48) as usize;
        let ghost prev = v@.subrange(start as int, i as int);
        let ghost next = v@.subrange(start as int, i + 1);
        assert(next.drop_last() =~= prev);
        assert(next.last() == v@[i as int]);
        assert(digits_value(next) == digits_value(prev) * 10 + digit_value(v@[i as int]));
        assert forall|k: int| 0 <= k < next.len() implies is_ascii_digit(#[trigger] next[k]) by {
            if k < prev.len() {
                assert(next[k] == prev[k]);
            }
        }
        if !overflow {
            match acc.checked_mul(10) {
                Some(m) => match m.checked_add(d) {
                    Some(x) => {
                        acc = x;
                    },
                    None => {
                        overflow = true;
                    },
                },
                None => {
                    overflow = true;
                },
            }
        }
        i = i + 1;
    }
    if overflow {
        None
    } else {
        Some(acc)
    }
}


/// Appends `v[from..to]` to `out`.
pub fn extend_from_range(out: &mut Vec<char>, v: &Vec<char>, from: usize, to: usize)
    requires
        from <= to <= v@.len(),
    ensures
        final(out)@ == old(out)@ + v@.subrange(from as int, to as int),
{
    let ghost start = out@;
    for i in from..to
        invariant
            from <= to <= v@.len(),
            out@ == start + v@.subrange(from as int, i as int),
    {
        out.push(v[i]);
        assert(v@.subrange(from as int, i + 1) =~= v@.subrange(from as int, i as int).push(
            v@[i as int],
        ));
    }
}


/// Where the white space from `i` ends: everything before it is white space,
/// and the character there (if any) is not.
pub proof fn lemma_white_space_end_bounds(s: Seq<char>, i: int)
    requires
        0 <= i <= s.len(),
    ensures
        i <= white_space_end(s, i) <= s.len(),
        forall|j: int| i <= j < white_space_end(s, i) ==> is_white_space(#[trigger] s[j]),
        white_space_end(s, i) < s.len() ==> !is_white_space(s[white_space_end(s, i)]),
    decreases s.len() - i,
{
    if i < s.len() && is_white_space(s[i]) {
        lemma_white_space_end_bounds(s, i + 1);
    }
}

/// A run of white space from `i` up to a character that is not white space
/// (or the end) ends there.
pub proof fn lemma_white_space_end_at(s: Seq<char>, i: int, m: int)
    requires
        0 <= i <= m <= s.len(),
        forall|j: int| i <= j < m ==> is_white_space(#[trigger] s[j]),
        m < s.len() ==> !is_white_space(s[m]),
    ensures
        white_space_end(s, i) == m,
    decreases m - i,
{
    if i < m {
        lemma_white_space_end_at(s, i + 1, m);
    }
}

/// The decimal notation of `n` is a non-empty run of digits that spells `n`.
pub proof fn lemma_decimal(n: nat)
    ensures
        decimal(n).len() >= 1,
        all_digits(decimal(n)),
        digits_value(decimal(n)) == n,
    decreases n,
{
    let d = decimal(n);
    assert(((n % 10 + 48) as char) as u32 == n % 10 + 48);
    if n < 10 {
        assert(d =~= seq![digit_char(n)]);
        assert(d.drop_last() =~= Seq::<char>::empty());
        assert(digits_value(Seq::<char>::empty()) == 0);
        assert(is_ascii_digit(d[0]));
        assert(digits_value(d) == digits_value(d.drop_last()) * 10 + digit_value(d.last()));
    } else {
        lemma_decimal(n / 10);
        let h = decimal(n / 10);
        assert(d == h.push(digit_char(n % 10)));
        assert(d.drop_last() =~= h);
        assert(d.last() == digit_char(n % 10));
        assert(digits_value(d) == digits_value(h) * 10 + digit_value(d.last()));
        assert(n == (n / 10) * 10 + n % 10);
        assert forall|i: int| 0 <= i < d.len() implies is_ascii_digit(#[trigger] d[i]) by {
            if i < h.len() {
                assert(d[i] == h[i]);
            }
        }
    }
}


/// Where the white space that ends at `j` starts: everything from there up to
/// `j` is white space, and the character before it (if any) is not.
pub proof fn lemma_white_space_start_bounds(s: Seq<char>, j: int)
    requires
        0 <= j <= s.len(),
    ensures
        0 <= white_space_start(s, j) <= j,
        forall|i: int| white_space_start(s, j) <= i < j ==> is_white_space(#[trigger] s[i]),
        white_space_start(s, j) > 0 ==> !is_white_space(s[white_space_start(s, j) - 1]),
    decreases j,
{
    if 0 < j && is_white_space(s[j - 1]) {
        lemma_white_space_start_bounds(s, j - 1);
    }
}

/// A trimmed text neither starts nor ends with white space.
pub proof fn lemma_trim_ends(s: Seq<char>)
    ensures
        trim(s).len() > 0 ==> !is_white_space(trim(s)[0]) && !is_white_space(trim(s).last()),
        trim(s).len() <= s.len(),
{
    lemma_white_space_end_bounds(s, 0);
    lemma_white_space_start_bounds(s, s.len() as int);
    let a = white_space_end(s, 0);
    let b = white_space_start(s, s.len() as int);
    if a < s.len() {
        assert(b > a);
    }
}

/// `trim(v)`: `v` without its leading and trailing white space.
pub fn trimmed(v: &Vec<char>) -> (r: Vec<char>)
    ensures
        r@ == trim(v@),
{
    let n = v.len();
    let a = skip_white_space(v, 0, n);
    assert(v@.subrange(0, n as int) =~= v@);
    if a == n {
        return Vec::new();
    }
    let mut b = n;
    while b > 0 && char_is_white_space(v[b - 1])
        invariant
            b <= n == v@.len(),
            white_space_start(v@, b as int) == white_space_start(v@, n as int),
        decreases b,
    {
        b = b - 1;
    }
    proof {
        lemma_white_space_end_bounds(v@, 0);
        lemma_white_space_start_bounds(v@, n as int);
    }
    let mut out: Vec<char> = Vec::new();
    extend_from_range(&mut out, v, a, b);
    out
}

} // verus!

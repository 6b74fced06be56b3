//! Character-level helpers shared by the text formats of the library:
//! splitting on a separator, decimal numbers as `str::parse` reads them and
//! as `{}` / `{:0>2}` write them.
use vstd::prelude::*;

verus! {

/// The character of a decimal digit below ten.
pub open spec fn digit_char(d: nat) -> char {
    if d == 0 {
        '0'
    } else if d == 1 {
        '1'
    } else if d == 2 {
        '2'
    } else if d == 3 {
        '3'
    } else if d == 4 {
        '4'
    } else if d == 5 {
        '5'
    } else if d == 6 {
        '6'
    } else if d == 7 {
        '7'
    } else if d == 8 {
        '8'
    } else {
        '9'
    }
}

/// Whether a character is an ASCII decimal digit.
pub open spec fn is_digit(c: char) -> bool {
    c == '0' || c == '1' || c == '2' || c == '3' || c == '4' || c == '5' || c == '6' || c == '7'
        || c == '8' || c == '9'
}

/// The value of a digit character (zero for any other character).
pub open spec fn digit_value(c: char) -> nat {
    if c == '1' {
        1
    } else if c == '2' {
        2
    } else if c == '3' {
        3
    } else if c == '4' {
        4
    } else if c == '5' {
        5
    } else if c == '6' {
        6
    } else if c == '7' {
        7
    } else if c == '8' {
        8
    } else if c == '9' {
        9
    } else {
        0
    }
}

pub open spec fn all_digits(s: Seq<char>) -> bool {
    forall|i: int| 0 <= i < s.len() ==> is_digit(#[trigger] s[i])
}

/// The number that a string of digits denotes, most significant digit first.
pub open spec fn digits_value(s: Seq<char>) -> nat
    decreases s.len(),
{
    if s.len() == 0 {
        0
    } else {
        digits_value(s.drop_last()) * 10 + digit_value(s.last())
    }
}

/// The shortest decimal notation of `n`, as `{}` writes an unsigned number.
pub open spec fn decimal(n: nat) -> Seq<char>
    decreases n,
{
    if n < 10 {
        seq![digit_char(n)]
    } else {
        decimal(n / 10).push(digit_char(n % 10))
    }
}

/// `{:0>2}`: the decimal notation of `n`, padded with `0` on the left to two characters.
pub open spec fn two_digits(n: nat) -> Seq<char> {
    if n < 10 {
        seq!['0'].push(digit_char(n))
    } else {
        decimal(n)
    }
}

/// What `str::parse` gives for an unsigned integer type whose largest value is `max`:
/// an optional `+`, then at least one digit, and a value that fits.
pub open spec fn spec_parse_unsigned(s: Seq<char>, max: nat) -> Option<nat> {
    let d = if s.len() > 0 && s[0] == '+' {
        s.drop_first()
    } else {
        s
    };
    if d.len() > 0 && all_digits(d) && digits_value(d) <= max {
        Some(digits_value(d))
    } else {
        None
    }
}

/// What `str::parse::<i64>` gives: an optional `+` or `-`, then at least one
/// digit, and a value within the range of `i64`.
pub open spec fn spec_parse_i64(s: Seq<char>) -> Option<int> {
    if s.len() == 0 {
        None
    } else {
        let signed = s[0] == '+' || s[0] == '-';
        let neg = s[0] == '-';
        let d = if signed {
            s.drop_first()
        } else {
            s
        };
        if d.len() == 0 || !all_digits(d) {
            None
        } else if neg {
            if digits_value(d) <= 0x8000_0000_0000_0000 {
                Some(-(digits_value(d) as int))
            } else {
                None
            }
        } else if digits_value(d) <= 0x7fff_ffff_ffff_ffff {
            Some(digits_value(d) as int)
        } else {
            None
        }
    }
}

/// The pieces of `s` between occurrences of `sep`, as `str::split` yields them:
/// always at least one piece, empty pieces included.
pub open spec fn split_on(s: Seq<char>, sep: char) -> Seq<Seq<char>>
    decreases s.len(),
{
    if s.len() == 0 {
        seq![Seq::empty()]
    } else {
        let p = split_on(s.drop_last(), sep);
        if s.last() == sep {
            p.push(Seq::empty())
        } else {
            p.update(p.len() - 1, p.last().push(s.last()))
        }
    }
}

/// The pieces joined with `sep` between them, as `[..].join(",")` builds a string.
pub open spec fn join_with(pieces: Seq<Seq<char>>, sep: char) -> Seq<char>
    decreases pieces.len(),
{
    if pieces.len() == 0 {
        Seq::empty()
    } else if pieces.len() == 1 {
        pieces[0]
    } else {
        join_with(pieces.drop_last(), sep).push(sep) + pieces.last()
    }
}

/// Whether `t` occurs in `s` as a contiguous piece, as `str::contains` answers.
pub open spec fn contains_seq(s: Seq<char>, t: Seq<char>) -> bool {
    exists|i: int| 0 <= i && i + t.len() <= s.len() && #[trigger] s.subrange(i, i + t.len()) == t
}


/// Whether `c` does not occur in `s`.
pub open spec fn free_of(s: Seq<char>, c: char) -> bool {
    forall|i: int| 0 <= i < s.len() ==> s[i] != c
}

/// Appending text without a separator extends the last piece.
pub proof fn lemma_split_append_free(x: Seq<char>, y: Seq<char>, sep: char)
    requires
        free_of(y, sep),
    ensures
        split_on(x + y, sep) == split_on(x, sep).update(
            split_on(x, sep).len() - 1,
            split_on(x, sep).last() + y,
        ),
    decreases y.len(),
{
    lemma_split_nonempty(x, sep);
    let q = split_on(x, sep);
    if y.len() == 0 {
        assert(x + y =~= x);
        assert(q.last() + y =~= q.last());
        assert(q.update(q.len() - 1, q.last() + y) =~= q);
    } else {
        lemma_split_append_free(x, y.drop_last(), sep);
        let xy = x + y;
        assert(xy.drop_last() =~= x + y.drop_last());
        assert(xy.last() == y.last());
        assert(y.last() != sep);
        let p = split_on(x + y.drop_last(), sep);
        assert(p.len() == q.len());
        assert(p.last() == q.last() + y.drop_last());
        assert((q.last() + y.drop_last()).push(y.last()) =~= q.last() + y);
        assert(split_on(xy, sep) =~= q.update(q.len() - 1, q.last() + y));
    }
}

/// Appending a separator opens a new, empty piece.
pub proof fn lemma_split_push_sep(x: Seq<char>, sep: char)
    ensures
        split_on(x.push(sep), sep) == split_on(x, sep).push(Seq::empty()),
{
    assert(x.push(sep).drop_last() =~= x);
}

/// Text without the separator is a single piece.
pub proof fn lemma_split_free(x: Seq<char>, sep: char)
    requires
        free_of(x, sep),
    ensures
        split_on(x, sep) == seq![x],
{
    lemma_split_append_free(Seq::empty(), x, sep);
    assert(Seq::<char>::empty() + x =~= x);
    assert(split_on(Seq::<char>::empty(), sep) =~= seq![Seq::<char>::empty()]);
    assert(Seq::<char>::empty() + x =~= x);
    assert(seq![Seq::<char>::empty()].update(0, Seq::<char>::empty() + x) =~= seq![x]);
}

/// Two separator-free pieces with a separator between them split back into the two pieces.
pub proof fn lemma_split_pair(a: Seq<char>, b: Seq<char>, sep: char)
    requires
        free_of(a, sep),
        free_of(b, sep),
    ensures
        split_on(a.push(sep) + b, sep) == seq![a, b],
{
    lemma_split_free(a, sep);
    lemma_split_push_sep(a, sep);
    lemma_split_append_free(a.push(sep), b, sep);
    assert(Seq::<char>::empty() + b =~= b);
    assert(seq![a].push(Seq::<char>::empty()).update(1, Seq::<char>::empty() + b) =~= seq![a, b]);
}

/// Splitting a join of separator-free pieces gives the pieces back.
pub proof fn lemma_split_join(pieces: Seq<Seq<char>>, sep: char)
    requires
        pieces.len() >= 1,
        forall|i: int| 0 <= i < pieces.len() ==> free_of(#[trigger] pieces[i], sep),
    ensures
        split_on(join_with(pieces, sep), sep) == pieces,
    decreases pieces.len(),
{
    if pieces.len() == 1 {
        lemma_split_free(pieces[0], sep);
        assert(seq![pieces[0]] =~= pieces);
    } else {
        let init = pieces.drop_last();
        assert forall|i: int| 0 <= i < init.len() implies free_of(#[trigger] init[i], sep) by {
            assert(init[i] == pieces[i]);
        }
        lemma_split_join(init, sep);
        let j = join_with(init, sep);
        lemma_split_push_sep(j, sep);
        assert(free_of(pieces[pieces.len() - 1], sep));
        lemma_split_append_free(j.push(sep), pieces.last(), sep);
        assert(Seq::<char>::empty() + pieces.last() =~= pieces.last());
        assert(init.push(Seq::<char>::empty()).update(init.len() as int, Seq::<char>::empty() + pieces.last())
            =~= pieces);
    }
}

/// The digits of a number hold no separator of another kind.
pub proof fn lemma_digits_free(s: Seq<char>, c: char)
    requires
        all_digits(s),
        !is_digit(c),
    ensures
        free_of(s, c),
{
    assert forall|i: int| 0 <= i < s.len() implies s[i] != c by {
        assert(is_digit(s[i]));
    }
}

/// A digit string without sign reads back as its value.
pub proof fn lemma_parse_digits(s: Seq<char>, max: nat)
    requires
        s.len() >= 1,
        all_digits(s),
        digits_value(s) <= max,
    ensures
        spec_parse_unsigned(s, max) == Some(digits_value(s)),
{
    assert(is_digit(s[0]));
}

pub proof fn lemma_split_nonempty(s: Seq<char>, sep: char)
    ensures
        split_on(s, sep).len() >= 1,
    decreases s.len(),
{
    if s.len() > 0 {
        lemma_split_nonempty(s.drop_last(), sep);
    }
}

pub proof fn lemma_digit_roundtrip(d: nat)
    requires
        d < 10,
    ensures
        is_digit(digit_char(d)),
        digit_value(digit_char(d)) == d,
{
}

/// The notation of a number is made of digits and reads back as the number.
pub proof fn lemma_decimal_value(n: nat)
    ensures
        all_digits(decimal(n)),
        digits_value(decimal(n)) == n,
        decimal(n).len() >= 1,
    decreases n,
{
    if n < 10 {
        lemma_digit_roundtrip(n);
        assert(decimal(n).drop_last() =~= Seq::<char>::empty());
        assert(digits_value(Seq::<char>::empty()) == 0);
        assert(digits_value(decimal(n)) == digits_value(decimal(n).drop_last()) * 10
            + digit_value(decimal(n).last()));
    } else {
        lemma_decimal_value(n / 10);
        lemma_digit_roundtrip(n % 10);
        let s = decimal(n);
        assert(s.drop_last() =~= decimal(n / 10));
        assert forall|i: int| 0 <= i < s.len() implies is_digit(#[trigger] s[i]) by {
            if i < s.len() - 1 {
                assert(s[i] == decimal(n / 10)[i]);
            }
        }
    }
}

pub proof fn lemma_two_digits_value(n: nat)
    ensures
        all_digits(two_digits(n)),
        digits_value(two_digits(n)) == n,
        two_digits(n).len() >= 1,
{
    lemma_decimal_value(n);
    if n < 10 {
        lemma_digit_roundtrip(n);
        let s = two_digits(n);
        assert(s.drop_last() =~= seq!['0']);
        assert(seq!['0'].drop_last() =~= Seq::<char>::empty());
        assert(digits_value(Seq::<char>::empty()) == 0);
        assert(digits_value(seq!['0']) == digits_value(seq!['0'].drop_last()) * 10 + digit_value(
            '0',
        ));
        assert(digits_value(seq!['0']) == 0);
    }
}

/// A prefix of a digit string never denotes more than the whole string.
pub proof fn lemma_digits_prefix_le(s: Seq<char>, i: int)
    requires
        0 <= i <= s.len(),
    ensures
        digits_value(s.subrange(0, i)) <= digits_value(s),
    decreases s.len() - i,
{
    if i < s.len() {
        lemma_digits_prefix_le(s, i + 1);
        assert(s.subrange(0, i + 1).drop_last() =~= s.subrange(0, i));
    } else {
        assert(s.subrange(0, i) =~= s);
    }
}

/// Exec check of one digit character.
pub fn char_digit(c: char) -> (r: Option<u8>)
    ensures
        r is Some <==> is_digit(c),
        r matches Some(v) ==> v as nat == digit_value(c) && v < 10,
{
    if c == '0' {
        Some(0)
    } else if c == '1' {
        Some(1)
    } else if c == '2' {
        Some(2)
    } else if c == '3' {
        Some(3)
    } else if c == '4' {
        Some(4)
    } else if c == '5' {
        Some(5)
    } else if c == '6' {
        Some(6)
    } else if c == '7' {
        Some(7)
    } else if c == '8' {
        Some(8)
    } else if c == '9' {
        Some(9)
    } else {
        None
    }
}

/// The characters of a string slice, in order.
pub fn chars_of(s: &str) -> (v: Vec<char>)
    ensures
        v@ == s@,
{
    let n = s.unicode_len();
    let mut v: Vec<char> = Vec::new();
    let mut i: usize = 0;
    while i < n
        invariant
            n == s@.len(),
            i <= n,
            v@ == s@.subrange(0, i as int),
        decreases n - i,
    {
        let c = s.get_char(i);
        v.push(c);
        i = i + 1;
        assert(v@ =~= s@.subrange(0, i as int));
    }
    assert(v@ =~= s@);
    v
}

/// Reads the value of the digits `s[start..]`, failing when a character is no
/// digit or when the value exceeds `max`.
fn digits_at_most(s: &Vec<char>, start: usize, max: u64) -> (r: Option<u64>)
    requires
        start < s@.len(),
        max <= 0x8000_0000_0000_0000,
    ensures
        r matches Some(v) ==> {
            let d = s@.subrange(start as int, s@.len() as int);
            all_digits(d) && digits_value(d) == v && v <= max
        },
        r is None ==> {
            let d = s@.subrange(start as int, s@.len() as int);
            !all_digits(d) || digits_value(d) > max
        },
{
    let ghost d = s@.subrange(start as int, s@.len() as int);
    let mut value: u64 = 0;
    let mut i: usize = start;
    while i < s.len()
        invariant
            start <= i <= s@.len(),
            d == s@.subrange(start as int, s@.len() as int),
            max <= 0x8000_0000_0000_0000,
            all_digits(d.subrange(0, i - start)),
            digits_value(d.subrange(0, i - start)) == value,
            value <= max,
        decreases s@.len() - i,
    {
        let c = s[i];
        match char_digit(c) {
            None => {
                assert(d[i - start] == c);
                return None;
            },
            Some(dv) => {
                let ghost pre = d.subrange(0, i - start);
                let ghost post = d.subrange(0, i - start + 1);
                assert(post.drop_last() =~= pre);
                assert(post.last() == c);
                if dv as u64 > max || value > (max - dv as u64) / 10 {
                    assert(digits_value(post) > max) by (nonlinear_arith)
                        requires
                            digits_value(post) == value * 10 + dv,
                            dv > max || value > (max - dv) / 10,
                            dv < 10,
                    ;
                    proof {
                        lemma_digits_prefix_le(d, i - start + 1);
                    }
                    return None;
                }
                assert(value * 10 + dv <= max) by (nonlinear_arith)
                    requires
                        value <= (max - dv as u64) / 10,
                        dv <= max,
                ;
                value = value * 10 + dv as u64;
                i = i + 1;
                assert forall|k: int| 0 <= k < post.len() implies is_digit(#[trigger] post[k]) by {
                    if k < pre.len() {
                        assert(post[k] == pre[k]);
                    }
                }
            },
        }
    }
    assert(d.subrange(0, i - start) =~= d);
    Some(value)
}

/// `str::parse` for an unsigned integer type whose largest value is `max`.
pub fn parse_unsigned(s: &Vec<char>, max: u64) -> (r: Option<u64>)
    requires
        max <= 0x8000_0000_0000_0000,
    ensures
        r matches Some(v) ==> spec_parse_unsigned(s@, max as nat) == Some(v as nat),
        r is None ==> spec_parse_unsigned(s@, max as nat) is None,
{
    let start: usize = if s.len() > 0 && s[0] == '+' {
        1
    } else {
        0
    };
    if start >= s.len() {
        return None;
    }
    let r = digits_at_most(s, start, max);
    proof {
        if start == 1 {
            assert(s@.drop_first() =~= s@.subrange(1, s@.len() as int));
        } else {
            assert(s@ =~= s@.subrange(0, s@.len() as int));
        }
    }
    r
}

/// `str::parse::<i64>`.
pub fn parse_i64(s: &Vec<char>) -> (r: Option<i64>)
    ensures
        r matches Some(v) ==> spec_parse_i64(s@) == Some(v as int),
        r is None ==> spec_parse_i64(s@) is None,
{
    if s.len() == 0 {
        return None;
    }
    let signed = s[0] == '+' || s[0] == '-';
    let neg = s[0] == '-';
    let start: usize = if signed {
        1
    } else {
        0
    };
    if start >= s.len() {
        return None;
    }
    proof {
        if signed {
            assert(s@.drop_first() =~= s@.subrange(1, s@.len() as int));
        } else {
            assert(s@ =~= s@.subrange(0, s@.len() as int));
        }
    }
    if neg {
        match digits_at_most(s, start, 0x8000_0000_0000_0000) {
            None => None,
            Some(v) => {
                if v == 0x8000_0000_0000_0000 {
                    Some(i64::MIN)
                } else {
                    Some(-(v as i64))
                }
            },
        }
    } else {
        match digits_at_most(s, start, 0x7fff_ffff_ffff_ffff) {
            None => None,
            Some(v) => Some(v as i64),
        }
    }
}

/// Splits `s` at every `sep`, as `str::split` does.
pub fn split_chars(s: &Vec<char>, sep: char) -> (r: Vec<Vec<char>>)
    ensures
        r@.map_values(|p: Vec<char>| p@) == split_on(s@, sep),
{
    let mut done: Vec<Vec<char>> = Vec::new();
    let mut cur: Vec<char> = Vec::new();
    let mut i: usize = 0;
    assert(s@.subrange(0, 0) =~= Seq::<char>::empty());
    assert(done@.map_values(|p: Vec<char>| p@).push(cur@) =~= split_on(
        s@.subrange(0, 0),
        sep,
    ));
    while i < s.len()
        invariant
            i <= s@.len(),
            done@.map_values(|p: Vec<char>| p@).push(cur@) == split_on(s@.subrange(0, i as int), sep),
        decreases s@.len() - i,
    {
        let c = s[i];
        let ghost before = s@.subrange(0, i as int);
        let ghost after = s@.subrange(0, i as int + 1);
        assert(after.drop_last() =~= before);
        assert(after.last() == c);
        proof {
            lemma_split_nonempty(before, sep);
        }
        if c == sep {
            let ghost old_done = done@.map_values(|p: Vec<char>| p@);
            let ghost old_cur = cur@;
            done.push(cur);
            cur = Vec::new();
            assert(done@.map_values(|p: Vec<char>| p@) =~= old_done.push(old_cur));
        } else {
            let ghost old_done = done@.map_values(|p: Vec<char>| p@);
            let ghost old_cur = cur@;
            cur.push(c);
            assert(done@.map_values(|p: Vec<char>| p@).push(cur@) =~= old_done.push(old_cur).update(
                old_done.len() as int,
                old_cur.push(c),
            ));
        }
        i = i + 1;
    }
    assert(s@.subrange(0, s@.len() as int) =~= s@);
    let ghost old_done = done@.map_values(|p: Vec<char>| p@);
    let ghost old_cur = cur@;
    done.push(cur);
    assert(done@.map_values(|p: Vec<char>| p@) =~= old_done.push(old_cur));
    done
}

/// Whether `t` occurs in `s`.
pub fn contains_chars(s: &Vec<char>, t: &Vec<char>) -> (r: bool)
    ensures
        r == contains_seq(s@, t@),
{
    if t.len() > s.len() {
        return false;
    }
    if t.len() == 0 {
        assert(s@.subrange(0, 0 + t@.len() as int) =~= t@);
        return true;
    }
    let slen: usize = s.len();
    let last: usize = slen - t.len();
    assert(last < usize::MAX);
    let mut i: usize = 0;
    while i <= last
        invariant
            last == s@.len() - t@.len(),
            i <= last + 1,
            last < usize::MAX,
            slen == s@.len(),
            1 <= t@.len() <= s@.len(),
            forall|k: int| 0 <= k < i ==> #[trigger] s@.subrange(k, k + t@.len()) != t@,
        decreases last + 1 - i,
    {
        let mut j: usize = 0;
        let mut same = true;
        while j < t.len()
            invariant
                i <= last,
                last == s@.len() - t@.len(),
                1 <= t@.len() <= s@.len(),
                slen == s@.len(),
                j <= t@.len(),
                same == (forall|m: int| 0 <= m < j ==> s@[i + m] == t@[m]),
            decreases t@.len() - j,
        {
            assert(i + j < s@.len());
            if s[i + j] != t[j] {
                same = false;
            }
            j = j + 1;
        }
        if same {
            assert(s@.subrange(i as int, i + t@.len()) =~= t@);
            return true;
        } else {
            assert(s@.subrange(i as int, i + t@.len()) != t@) by {
                let m = choose|m: int| 0 <= m < t@.len() && s@[i + m] != t@[m];
                assert(s@.subrange(i as int, i + t@.len())[m] == s@[i + m]);
            }
        }
        i = i + 1;
    }
    assert forall|k: int| 0 <= k && k + t@.len() <= s@.len() implies #[trigger] s@.subrange(
        k,
        k + t@.len(),
    ) != t@ by {
        assert(k < i);
    }
    false
}


/// Whether two string slices hold the same characters.
pub fn str_eq(a: &str, b: &str) -> (r: bool)
    ensures
        r == (a@ == b@),
{
    let n = a.unicode_len();
    if n != b.unicode_len() {
        return false;
    }
    let mut i: usize = 0;
    while i < n
        invariant
            n == a@.len(),
            n == b@.len(),
            i <= n,
            forall|k: int| 0 <= k < i ==> a@[k] == b@[k],
        decreases n - i,
    {
        if a.get_char(i) != b.get_char(i) {
            return false;
        }
        i = i + 1;
    }
    assert(a@ =~= b@);
    true
}

/// Appends the character of one digit.
pub fn push_digit(out: &mut String, d: u64)
    requires
        d < 10,
    ensures
        final(out)@ == old(out)@.push(digit_char(d as nat)),
{
    proof {
        reveal_strlit("0");
        reveal_strlit("1");
        reveal_strlit("2");
        reveal_strlit("3");
        reveal_strlit("4");
        reveal_strlit("5");
        reveal_strlit("6");
        reveal_strlit("7");
        reveal_strlit("8");
        reveal_strlit("9");
    }
    let lit = if d == 0 {
        "0"
    } else if d == 1 {
        "1"
    } else if d == 2 {
        "2"
    } else if d == 3 {
        "3"
    } else if d == 4 {
        "4"
    } else if d == 5 {
        "5"
    } else if d == 6 {
        "6"
    } else if d == 7 {
        "7"
    } else if d == 8 {
        "8"
    } else {
        "9"
    };
    assert(lit@ =~= seq![digit_char(d as nat)]);
    out.append(lit);
    assert(out@ =~= old(out)@.push(digit_char(d as nat)));
}

/// Appends `n` in decimal, as `{}` writes it.
pub fn push_decimal(out: &mut String, n: u64)
    ensures
        final(out)@ == old(out)@ + decimal(n as nat),
    decreases n,
{
    if n >= 10 {
        push_decimal(out, n / 10);
    }
    push_digit(out, n % 10);
    if n >= 10 {
        assert(out@ =~= old(out)@ + decimal(n as nat));
    } else {
        assert(out@ =~= old(out)@ + decimal(n as nat));
    }
}

/// Appends `n` as `{:0>2}` writes it.
pub fn push_two_digits(out: &mut String, n: u64)
    ensures
        final(out)@ == old(out)@ + two_digits(n as nat),
{
    if n < 10 {
        push_digit(out, 0);
    }
    push_decimal(out, n);
    assert(out@ =~= old(out)@ + two_digits(n as nat));
}

} // verus!

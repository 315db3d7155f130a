//! Character-level text helpers shared by every validator: Unicode whitespace
//! trimming, exact comparison, comma-separated tokens and decimal rendering.

use vstd::prelude::*;

verus! {

/// Unicode `White_Space` code points, the set that `char::is_whitespace` uses.
pub open spec fn is_white_space(c: char) -> bool {
    let v = c as u32;
    ||| 0x09 <= v <= 0x0D
    ||| v == 0x20
    ||| v == 0x85
    ||| v == 0xA0
    ||| v == 0x1680
    ||| 0x2000 <= v <= 0x200A
    ||| v == 0x2028
    ||| v == 0x2029
    ||| v == 0x202F
    ||| v == 0x205F
    ||| v == 0x3000
}

/// The text without its leading whitespace.
pub open spec fn trim_start(s: Seq<char>) -> Seq<char>
    decreases s.len(),
{
    if s.len() > 0 && is_white_space(s[0]) {
        trim_start(s.drop_first())
    } else {
        s
    }
}

/// The text without its trailing whitespace.
pub open spec fn trim_end(s: Seq<char>) -> Seq<char>
    decreases s.len(),
{
    if s.len() > 0 && is_white_space(s.last()) {
        trim_end(s.drop_last())
    } else {
        s
    }
}

/// The text without leading and trailing whitespace, as `str::trim` gives it.
pub open spec fn trimmed(s: Seq<char>) -> Seq<char> {
    trim_end(trim_start(s))
}

/// Whether a character is Unicode whitespace.
pub fn is_space(c: char) -> (b: bool)
    ensures
        b == is_white_space(c),
{
    let v = c as u32;
    (0x09 <= v && v <= 0x0D) || v == 0x20 || v == 0x85 || v == 0xA0 || v == 0x1680 || (0x2000
        <= v && v <= 0x200A) || v == 0x2028 || v == 0x2029 || v == 0x202F || v == 0x205F || v
        == 0x3000
}

proof fn lemma_trim_start_step(s: Seq<char>, a: int)
    requires
        0 <= a < s.len(),
        is_white_space(s[a]),
    ensures
        trim_start(s.subrange(a, s.len() as int)) == trim_start(s.subrange(a + 1, s.len() as int)),
{
    assert(s.subrange(a, s.len() as int).drop_first() =~= s.subrange(a + 1, s.len() as int));
}

proof fn lemma_trim_end_step(s: Seq<char>, a: int, b: int)
    requires
        0 <= a < b <= s.len(),
        is_white_space(s[b - 1]),
    ensures
        trim_end(s.subrange(a, b)) == trim_end(s.subrange(a, b - 1)),
{
    assert(s.subrange(a, b).drop_last() =~= s.subrange(a, b - 1));
}

/// The text without leading and trailing whitespace.
pub fn trim(s: &str) -> (r: &str)
    ensures
        r@ == trimmed(s@),
{
    let n = s.unicode_len();
    let mut start: usize = 0;
    proof {
        assert(s@.subrange(0, n as int) =~= s@);
    }
    while start < n && is_space(s.get_char(start))
        invariant
            n == s@.len(),
            start <= n,
            trim_start(s@) == trim_start(s@.subrange(start as int, n as int)),
        decreases n - start,
    {
        proof {
            lemma_trim_start_step(s@, start as int);
        }
        start = start + 1;
    }
    let ghost rest = s@.subrange(start as int, n as int);
    assert(trim_start(s@) == rest);
    let mut end: usize = n;
    while end > start && is_space(s.get_char(end - 1))
        invariant
            n == s@.len(),
            start <= end <= n,
            trim_start(s@) == rest,
            rest == s@.subrange(start as int, n as int),
            trim_end(rest) == trim_end(s@.subrange(start as int, end as int)),
        decreases end,
    {
        proof {
            lemma_trim_end_step(s@, start as int, end as int);
        }
        end = end - 1;
    }
    let r = s.substring_char(start, end);
    proof {
        let t = s@.subrange(start as int, end as int);
        if t.len() > 0 {
            assert(t.last() == s@[end - 1]);
        }
        assert(trim_end(t) == t);
    }
    r
}

/// Whether two texts hold the same characters.
pub fn same_text(a: &str, b: &str) -> (r: bool)
    ensures
        r == (a@ == b@),
{
    let n = a.unicode_len();
    if n != b.unicode_len() {
        return false;
    }
    let mut i: usize = 0;
    while i < n
        invariant
            n == a@.len(),
            n == b@.len(),
            i <= n,
            forall|k: int| 0 <= k < i ==> a@[k] == b@[k],
        decreases n - i,
    {
        if a.get_char(i) != b.get_char(i) {
            return false;
        }
        i = i + 1;
    }
    assert(a@ =~= b@);
    true
}


/// The pieces of a text between commas, as `str::split(',')` yields them.
pub open spec fn segments(s: Seq<char>) -> Seq<Seq<char>>
    decreases s.len(),
{
    if s.len() == 0 {
        seq![Seq::<char>::empty()]
    } else {
        let prev = segments(s.drop_last());
        if s.last() == ',' {
            prev.push(Seq::<char>::empty())
        } else {
            prev.update(prev.len() - 1, prev.last().push(s.last()))
        }
    }
}

/// The trimmed pieces that are not empty, in order.
pub open spec fn keep_tokens(pieces: Seq<Seq<char>>) -> Seq<Seq<char>>
    decreases pieces.len(),
{
    if pieces.len() == 0 {
        Seq::empty()
    } else {
        let rest = keep_tokens(pieces.drop_last());
        let t = trimmed(pieces.last());
        if t.len() == 0 {
            rest
        } else {
            rest.push(t)
        }
    }
}

/// The entries of a comma-separated list: each piece trimmed, empty pieces dropped.
pub open spec fn csv_tokens(s: Seq<char>) -> Seq<Seq<char>> {
    keep_tokens(segments(s))
}

proof fn lemma_segments_len(s: Seq<char>)
    ensures
        segments(s).len() >= 1,
    decreases s.len(),
{
    if s.len() > 0 {
        lemma_segments_len(s.drop_last());
    }
}

/// The entries of a comma-separated list: each piece trimmed, empty pieces dropped.
pub fn split_csv(value: &str) -> (r: Vec<&str>)
    ensures
        r.len() == csv_tokens(value@).len(),
        forall|k: int| 0 <= k < r.len() ==> #[trigger] r[k]@ == csv_tokens(value@)[k],
{
    let n = value.unicode_len();
    let mut out: Vec<&str> = Vec::new();
    let mut start: usize = 0;
    let mut i: usize = 0;
    let ghost mut done: Seq<Seq<char>> = Seq::empty();
    proof {
        assert(value@.take(0) =~= Seq::<char>::empty());
        assert(value@.subrange(0, 0) =~= Seq::<char>::empty());
        assert(segments(value@.take(0)) =~= done.push(value@.subrange(0, 0)));
    }
    while i < n
        invariant
            n == value@.len(),
            start <= i <= n,
            segments(value@.take(i as int)) == done.push(value@.subrange(start as int, i as int)),
            out.len() == keep_tokens(done).len(),
            forall|k: int| 0 <= k < out.len() ==> #[trigger] out[k]@ == keep_tokens(done)[k],
        decreases n - i,
    {
        let c = value.get_char(i);
        let ghost prefix = value@.take(i + 1);
        proof {
            assert(prefix.drop_last() =~= value@.take(i as int));
            assert(prefix.last() == c);
        }
        if c == ',' {
            let piece = value.substring_char(start, i);
            let t = trim(piece);
            proof {
                let d2 = done.push(value@.subrange(start as int, i as int));
                assert(d2.drop_last() =~= done);
            }
            if t.unicode_len() > 0 {
                out.push(t);
            }
            proof {
                done = done.push(value@.subrange(start as int, i as int));
                assert(value@.subrange(i + 1, i + 1) =~= Seq::<char>::empty());
            }
            start = i + 1;
        } else {
            proof {
                assert(value@.subrange(start as int, i as int).push(c) =~= value@.subrange(
                    start as int,
                    i + 1,
                ));
                let p = done.push(value@.subrange(start as int, i as int));
                assert(p.update(p.len() - 1, p.last().push(c)) =~= done.push(
                    value@.subrange(start as int, i + 1),
                ));
            }
        }
        i = i + 1;
    }
    let piece = value.substring_char(start, n);
    let t = trim(piece);
    proof {
        assert(value@.take(n as int) =~= value@);
        let d2 = done.push(value@.subrange(start as int, n as int));
        assert(d2.drop_last() =~= done);
    }
    if t.unicode_len() > 0 {
        out.push(t);
    }
    out
}

/// The decimal digits of a natural number.
pub open spec fn decimal(n: nat) -> Seq<char>
    decreases n,
{
    if n < 10 {
        seq![digit_char(n)]
    } else {
        decimal(n / 10) + seq![digit_char(n % 10)]
    }
}

/// The character of a single decimal digit.
pub open spec fn digit_char(d: nat) -> char {
    if d == 0 {
        '0'
    } else if d == 1 {
        '1'
    } else if d == 2 {
        '2'
    } else if d == 3 {
        '3'
    } else if d == 4 {
        '4'
    } else if d == 5 {
        '5'
    } else if d == 6 {
        '6'
    } else if d == 7 {
        '7'
    } else if d == 8 {
        '8'
    } else {
        '9'
    }
}

fn digit_text(d: usize) -> (r: &'static str)
    requires
        d < 10,
    ensures
        r@ == seq![digit_char(d as nat)],
{
    proof {
        reveal_strlit("0");
        reveal_strlit("1");
        reveal_strlit("2");
        reveal_strlit("3");
        reveal_strlit("4");
        reveal_strlit("5");
        reveal_strlit("6");
        reveal_strlit("7");
        reveal_strlit("8");
        reveal_strlit("9");
    }
    if d == 0 {
        "0"
    } else if d == 1 {
        "1"
    } else if d == 2 {
        "2"
    } else if d == 3 {
        "3"
    } else if d == 4 {
        "4"
    } else if d == 5 {
        "5"
    } else if d == 6 {
        "6"
    } else if d == 7 {
        "7"
    } else if d == 8 {
        "8"
    } else {
        "9"
    }
}

/// The decimal rendering of a number, as `Display` writes it.
pub fn decimal_text(n: usize) -> (r: String)
    ensures
        r@ == decimal(n as nat),
    decreases n,
{
    if n < 10 {
        digit_text(n).to_owned()
    } else {
        let mut head = decimal_text(n / 10);
        head.append(digit_text(n % 10));
        head
    }
}

/// Text made of two parts, in order.
pub fn join2(a: &str, b: &str) -> (r: String)
    ensures
        r@ == a@ + b@,
{
    let mut out = a.to_owned();
    out.append(b);
    out
}

/// Text made of three parts, in order.
pub fn join3(a: &str, b: &str, c: &str) -> (r: String)
    ensures
        r@ == a@ + b@ + c@,
{
    let mut out = a.to_owned();
    out.append(b);
    out.append(c);
    out
}

} // verus!

use vstd::prelude::*;
use vstd::string::*;

verus! {

/// One observed exchange rate: when it was observed, and the rate itself as a
/// whole number of `RATE_UNITS` of the quote currency.
#[derive(Debug)]
pub struct ExchangeRate {
    pub time: String,
    pub rate: u64,
}

/// How many rate units make one whole unit of the quote currency.
pub const RATE_UNITS: u64 = 100_000_000;

/// The mathematical value of an `ExchangeRate`.
pub struct RateView {
    pub time: Seq<char>,
    pub rate: u64,
}

impl View for ExchangeRate {
    type V = RateView;

    open spec fn view(&self) -> RateView {
        RateView { time: self.time@, rate: self.rate }
    }
}

/// A time stamp that can be framed verbatim: no quote and no backslash.
pub open spec fn is_valid_time(t: Seq<char>) -> bool {
    forall|i: int| 0 <= i < t.len() ==> t[i] != '"' && t[i] != '\\'
}

/// `{"time":"`
pub open spec fn head() -> Seq<char> {
    seq!['{', '"', 't', 'i', 'm', 'e', '"', ':', '"']
}

/// `","rate":`
pub open spec fn middle() -> Seq<char> {
    seq!['"', ',', '"', 'r', 'a', 't', 'e', '"', ':']
}

pub open spec fn digit_char(d: nat) -> char {
    if d == 0 { '0' }
    else if d == 1 { '1' }
    else if d == 2 { '2' }
    else if d == 3 { '3' }
    else if d == 4 { '4' }
    else if d == 5 { '5' }
    else if d == 6 { '6' }
    else if d == 7 { '7' }
    else if d == 8 { '8' }
    else { '9' }
}

/// The value of a decimal digit, or -1 for any other character.
pub open spec fn digit_val(c: char) -> int {
    if c == '0' { 0 }
    else if c == '1' { 1 }
    else if c == '2' { 2 }
    else if c == '3' { 3 }
    else if c == '4' { 4 }
    else if c == '5' { 5 }
    else if c == '6' { 6 }
    else if c == '7' { 7 }
    else if c == '8' { 8 }
    else if c == '9' { 9 }
    else { -1 }
}

/// The decimal digits of `n`, most significant first, without leading zeros.
pub open spec fn dec(n: nat) -> Seq<char>
    decreases n,
{
    if n < 10 {
        seq![digit_char(n)]
    } else {
        dec(n / 10).push(digit_char(n % 10))
    }
}

pub open spec fn all_digits(s: Seq<char>) -> bool {
    forall|i: int| 0 <= i < s.len() ==> digit_val(#[trigger] s[i]) >= 0
}

/// The number that a run of decimal digits denotes.
pub open spec fn digits_value(s: Seq<char>) -> int
    decreases s.len(),
{
    if s.len() == 0 {
        0
    } else {
        digits_value(s.drop_last()) * 10 + digit_val(s.last())
    }
}

/// The text of a cache entry around a time stamp and a run of digits.
pub open spec fn frame(time: Seq<char>, digits: Seq<char>) -> Seq<char> {
    head() + time + middle() + digits + seq!['}']
}

/// The text that `serialize` writes for `r`.
pub open spec fn encoded(r: RateView) -> Seq<char> {
    frame(r.time, dec(r.rate as nat))
}

/// `text` is a well-formed entry that holds the rate `r`.
pub open spec fn reads_as(text: Seq<char>, r: RateView) -> bool {
    is_valid_time(r.time) && exists|d: Seq<char>|
        d.len() > 0 && all_digits(d) && digits_value(d) == r.rate && text == #[trigger] frame(
            r.time,
            d,
        )
}

proof fn lemma_dec(n: nat)
    ensures
        dec(n).len() > 0,
        all_digits(dec(n)),
        digits_value(dec(n)) == n,
    decreases n,
{
    let d = (n % 10) as nat;
    assert(digit_val(digit_char(d)) == d);
    if n >= 10 {
        lemma_dec(n / 10);
        let s = dec(n);
        assert(s.drop_last() =~= dec(n / 10));
        assert(s.last() == digit_char(d));
        assert((n / 10) * 10 + d == n);
    } else {
        assert(dec(n).drop_last() =~= Seq::<char>::empty());
        assert(digits_value(Seq::<char>::empty()) == 0);
    }
}

proof fn lemma_prefix_value(s: Seq<char>, m: int)
    requires
        all_digits(s),
        0 <= m <= s.len(),
    ensures
        0 <= digits_value(s.subrange(0, m)) <= digits_value(s),
    decreases s.len(),
{
    if s.len() > 0 {
        if m == s.len() {
            assert(s.subrange(0, m) =~= s);
            lemma_prefix_value(s.drop_last(), m - 1);
        } else {
            lemma_prefix_value(s.drop_last(), m);
            assert(s.drop_last().subrange(0, m) =~= s.subrange(0, m));
        }
    }
}

/// The parts of an encoded entry, where a reader finds them.
proof fn lemma_shape(r: RateView)
    requires
        is_valid_time(r.time),
    ensures
        ({
            let t = encoded(r);
            let n = r.time.len() as int;
            let d = dec(r.rate as nat);
            &&& t.len() == 19 + n + d.len()
            &&& t.subrange(0, 9) == head()
            &&& t.subrange(9, 9 + n) == r.time
            &&& t[9 + n] == '"'
            &&& t.subrange(9 + n, 18 + n) == middle()
            &&& t.subrange(18 + n, t.len() - 1) == d
            &&& t[t.len() - 1] == '}'
            &&& d.len() > 0
            &&& all_digits(d)
            &&& digits_value(d) == r.rate
        }),
{
    let t = encoded(r);
    let n = r.time.len() as int;
    let d = dec(r.rate as nat);
    lemma_dec(r.rate as nat);
    assert(t.subrange(0, 9) =~= head());
    assert(t.subrange(9, 9 + n) =~= r.time);
    assert(t.subrange(9 + n, 18 + n) =~= middle());
    assert(t.subrange(18 + n, t.len() - 1) =~= d);
}

/// Serialising a valid rate and reading the text back gives that rate and no
/// other: the time stamp and the rate come back exactly.
pub proof fn lemma_round_trip(x: RateView, y: RateView)
    requires
        is_valid_time(x.time),
    ensures
        reads_as(encoded(x), y) <==> y == x,
{
    lemma_dec(x.rate as nat);
    if y == x {
        assert(encoded(x) == frame(x.time, dec(x.rate as nat)));
    }
    if reads_as(encoded(x), y) {
        let d = choose|d: Seq<char>|
            d.len() > 0 && all_digits(d) && digits_value(d) == y.rate && encoded(x)
                == #[trigger] frame(y.time, d);
        let t = encoded(x);
        let nx = x.time.len() as int;
        let ny = y.time.len() as int;
        assert(t.subrange(0, 9) =~= head());
        if nx < ny {
            assert(t[9 + nx] == x.time.push('"')[nx as int]);
            assert(t[9 + nx] == y.time[nx as int]);
        }
        if ny < nx {
            assert(t[9 + ny] == y.time.push('"')[ny as int]);
            assert(t[9 + ny] == x.time[ny as int]);
        }
        assert(nx == ny);
        assert(x.time =~= t.subrange(9, 9 + nx));
        assert(y.time =~= t.subrange(9, 9 + ny));
        assert(d =~= t.subrange(18 + nx, t.len() - 1));
        assert(dec(x.rate as nat) =~= t.subrange(18 + nx, t.len() - 1));
    }
}

fn push_head(out: &mut Vec<char>)
    ensures
        final(out)@ == old(out)@ + head(),
{
    out.push('{');
    out.push('"');
    out.push('t');
    out.push('i');
    out.push('m');
    out.push('e');
    out.push('"');
    out.push(':');
    out.push('"');
    assert(final(out)@ =~= old(out)@ + head());
}

fn push_middle(out: &mut Vec<char>)
    ensures
        final(out)@ == old(out)@ + middle(),
{
    out.push('"');
    out.push(',');
    out.push('"');
    out.push('r');
    out.push('a');
    out.push('t');
    out.push('e');
    out.push('"');
    out.push(':');
    assert(final(out)@ =~= old(out)@ + middle());
}

fn digit_to_char(d: u64) -> (c: char)
    requires
        d < 10,
    ensures
        c == digit_char(d as nat),
{
    match d {
        0 => '0',
        1 => '1',
        2 => '2',
        3 => '3',
        4 => '4',
        5 => '5',
        6 => '6',
        7 => '7',
        8 => '8',
        _ => '9',
    }
}

fn char_to_digit(c: char) -> (d: Option<u64>)
    ensures
        match d {
            Some(v) => v == digit_val(c) && v < 10,
            None => digit_val(c) < 0,
        },
{
    match c {
        '0' => Some(0),
        '1' => Some(1),
        '2' => Some(2),
        '3' => Some(3),
        '4' => Some(4),
        '5' => Some(5),
        '6' => Some(6),
        '7' => Some(7),
        '8' => Some(8),
        '9' => Some(9),
        _ => None,
    }
}

/// Appends the decimal digits of `n`.
pub fn push_decimal(n: u64, out: &mut Vec<char>)
    ensures
        final(out)@ == old(out)@ + dec(n as nat),
    decreases n,
{
    if n >= 10 {
        push_decimal(n / 10, out);
    }
    out.push(digit_to_char(n % 10));
    assert(final(out)@ =~= old(out)@ + dec(n as nat));
}

/// The characters of `s`, in order.
pub fn chars_of(s: &str) -> (v: Vec<char>)
    ensures
        v@ == s@,
{
    let n = s.unicode_len();
    let mut v: Vec<char> = Vec::new();
    let mut i: usize = 0;
    while i < n
        invariant
            n == s@.len(),
            i <= n,
            v@ == s@.subrange(0, i as int),
        decreases n - i,
    {
        v.push(s.get_char(i));
        i = i + 1;
        assert(v@ =~= s@.subrange(0, i as int));
    }
    assert(v@ =~= s@);
    v
}

/// Relies on `String: FromIterator<&char>`: the string holds the characters in order.
#[verifier::external_body]
pub(crate) fn string_of(v: &Vec<char>) -> (s: String)
    ensures
        s@ == v@,
{
    v.iter().collect()
}

/// Whether `t` can be framed verbatim in a cache entry.
pub fn valid_time(t: &str) -> (b: bool)
    ensures
        b == is_valid_time(t@),
{
    let c = chars_of(t);
    let mut i: usize = 0;
    while i < c.len()
        invariant
            c@ == t@,
            i <= c@.len(),
            forall|k: int| 0 <= k < i ==> c@[k] != '"' && c@[k] != '\\',
        decreases c@.len() - i,
    {
        if c[i] == '"' || c[i] == '\\' {
            return false;
        }
        i = i + 1;
    }
    true
}

/// The cache entry text of `r`.
pub fn serialize(r: &ExchangeRate) -> (s: String)
    requires
        is_valid_time(r.time@),
    ensures
        s@ == encoded(r@),
{
    let mut out: Vec<char> = Vec::new();
    push_head(&mut out);
    let t = chars_of(r.time.as_str());
    let mut i: usize = 0;
    let ghost start = out@;
    while i < t.len()
        invariant
            t@ == r.time@,
            i <= t@.len(),
            out@ == start + t@.subrange(0, i as int),
        decreases t@.len() - i,
    {
        out.push(t[i]);
        i = i + 1;
        assert(out@ =~= start + t@.subrange(0, i as int));
    }
    push_middle(&mut out);
    push_decimal(r.rate, &mut out);
    out.push('}');
    assert(out@ =~= encoded(r@));
    string_of(&out)
}

/// Reads a cache entry. Every answer is a rate that the text holds, and every
/// text that `serialize` writes is read back.
pub fn deserialize(text: &str) -> (r: Option<ExchangeRate>)
    ensures
        r matches Some(x) ==> reads_as(text@, x@),
        forall|y: RateView|
            is_valid_time(y.time) && #[trigger] encoded(y) == text@ ==> (r matches Some(x)
                && x@ == y),
{
    let t = chars_of(text);
    let n = t.len();
    let mut h: Vec<char> = Vec::new();
    push_head(&mut h);
    if n < 9 {
        proof {
            assert forall|y: RateView| is_valid_time(y.time) && #[trigger] encoded(y)
                == text@ implies false by {
                lemma_shape(y);
            }
        }
        return None;
    }
    let mut k: usize = 0;
    while k < 9
        invariant
            t@ == text@,
            n == t@.len(),
            n >= 9,
            h@ == head(),
            k <= 9,
            forall|m: int| 0 <= m < k ==> t@[m] == head()[m],
        decreases 9 - k,
    {
        if t[k] != h[k] {
            proof {
                assert forall|y: RateView| is_valid_time(y.time) && #[trigger] encoded(y)
                    == text@ implies false by {
                    lemma_shape(y);
                    assert(t@.subrange(0, 9)[k as int] == t@[k as int]);
                }
            }
            return None;
        }
        k = k + 1;
    }
    assert(t@.subrange(0, 9) =~= head());
    // the time stamp runs up to the first quote
    let mut i: usize = 9;
    while i < n && t[i] != '"'
        invariant
            t@ == text@,
            n == t@.len(),
            9 <= i <= n,
            forall|m: int| 9 <= m < i ==> t@[m] != '"' && t@[m] != '\\',
        decreases n - i,
    {
        if t[i] == '\\' {
            proof {
                assert forall|y: RateView| is_valid_time(y.time) && #[trigger] encoded(y)
                    == text@ implies false by {
                    lemma_shape(y);
                    let ny = y.time.len() as int;
                    if i < 9 + ny {
                        assert(t@.subrange(9, 9 + ny)[i - 9] == t@[i as int]);
                    } else if i == 9 + ny {
                    } else {
                        assert(t@[9 + ny] != '"');
                    }
                }
            }
            return None;
        }
        i = i + 1;
    }
    // from here on, any encoded y has its time stamp end at i
    proof {
        assert forall|y: RateView| is_valid_time(y.time) && #[trigger] encoded(y)
            == text@ implies i == 9 + y.time.len() by {
            lemma_shape(y);
            let ny = y.time.len() as int;
            if i < 9 + ny {
                assert(t@.subrange(9, 9 + ny)[i - 9] == t@[i as int]);
            } else if i > 9 + ny {
                assert(t@[9 + ny] != '"');
            }
        }
    }
    if n - i < 10 {
        proof {
            assert forall|y: RateView| is_valid_time(y.time) && #[trigger] encoded(y)
                == text@ implies false by {
                lemma_shape(y);
            }
        }
        return None;
    }
    let mut m_chars: Vec<char> = Vec::new();
    push_middle(&mut m_chars);
    let mut k: usize = 0;
    while k < 9
        invariant
            t@ == text@,
            n == t@.len(),
            9 <= i,
            i + 10 <= n,
            m_chars@ == middle(),
            forall|y: RateView| is_valid_time(y.time) && #[trigger] encoded(y) == text@ ==> i
                == 9 + y.time.len(),
            k <= 9,
            forall|m: int| 0 <= m < k ==> t@[i + m] == middle()[m],
        decreases 9 - k,
    {
        if t[i + k] != m_chars[k] {
            proof {
                assert forall|y: RateView| is_valid_time(y.time) && #[trigger] encoded(y)
                    == text@ implies false by {
                    lemma_shape(y);
                    let ny = y.time.len() as int;
                    assert(t@.subrange(9 + ny, 18 + ny)[k as int] == t@[i + k]);
                }
            }
            return None;
        }
        k = k + 1;
    }
    assert(t@.subrange(i as int, i + 9) =~= middle());
    let j: usize = i + 9;
    if t[n - 1] != '}' {
        proof {
            assert forall|y: RateView| is_valid_time(y.time) && #[trigger] encoded(y)
                == text@ implies false by {
                lemma_shape(y);
            }
        }
        return None;
    }
    let mut acc: u64 = 0;
    let mut p: usize = j;
    while p < n - 1
        invariant
            t@ == text@,
            n == t@.len(),
            j + 1 <= n,
            j <= p <= n - 1,
            all_digits(t@.subrange(j as int, p as int)),
            acc == digits_value(t@.subrange(j as int, p as int)),
            forall|y: RateView| is_valid_time(y.time) && #[trigger] encoded(y) == text@ ==> j
                == 18 + y.time.len(),
        decreases n - 1 - p,
    {
        let ghost before = t@.subrange(j as int, p as int);
        let ghost after = t@.subrange(j as int, p + 1);
        assert(after.drop_last() =~= before);
        match char_to_digit(t[p]) {
            None => {
                proof {
                    assert forall|y: RateView| is_valid_time(y.time) && #[trigger] encoded(y)
                        == text@ implies false by {
                        lemma_shape(y);
                        let d = dec(y.rate as nat);
                        assert(t@.subrange(j as int, n - 1)[p - j] == t@[p as int]);
                        assert(digit_val(d[p - j]) >= 0);
                    }
                }
                return None;
            },
            Some(d) => {
                let next = match acc.checked_mul(10) {
                    Some(a) => a.checked_add(d),
                    None => None,
                };
                match next {
                    None => {
                        proof {
                            assert forall|y: RateView| is_valid_time(y.time) && #[trigger] encoded(
                                y,
                            ) == text@ implies false by {
                                lemma_shape(y);
                                let dd = dec(y.rate as nat);
                                assert(dd =~= t@.subrange(j as int, n - 1));
                                assert(dd.subrange(0, p + 1 - j) =~= after);
                                lemma_prefix_value(dd, p + 1 - j);
                            }
                        }
                        return None;
                    },
                    Some(v) => {
                        acc = v;
                    },
                }
            },
        }
        p = p + 1;
    }
    if p == j {
        proof {
            assert forall|y: RateView| is_valid_time(y.time) && #[trigger] encoded(y)
                == text@ implies false by {
                lemma_shape(y);
            }
        }
        return None;
    }
    let mut tv: Vec<char> = Vec::new();
    let mut q: usize = 9;
    while q < i
        invariant
            t@ == text@,
            9 <= q <= i,
            i < n,
            n == t@.len(),
            tv@ == t@.subrange(9, q as int),
        decreases i - q,
    {
        tv.push(t[q]);
        q = q + 1;
        assert(tv@ =~= t@.subrange(9, q as int));
    }
    let time = string_of(&tv);
    let r = ExchangeRate { time, rate: acc };
    proof {
        let d = t@.subrange(j as int, n - 1);
        assert(r.time@ == t@.subrange(9, i as int));
        assert forall|m: int| 0 <= m < r.time@.len() implies r.time@[m] != '"' && r.time@[m]
            != '\\' by {
            assert(r.time@[m] == t@[9 + m]);
        }
        assert(is_valid_time(r.time@));
        assert(text@ =~= frame(r.time@, d));
        assert(d.len() > 0 && all_digits(d) && digits_value(d) == r.rate);
        assert(text@ == frame(r@.time, d) && digits_value(d) == r@.rate);
        assert(reads_as(text@, r@));
        assert forall|y: RateView| is_valid_time(y.time) && #[trigger] encoded(y)
            == text@ implies r@ == y by {
            lemma_shape(y);
            assert(r.time@ =~= y.time);
            assert(d =~= dec(y.rate as nat));
        }
    }
    Some(r)
}

} // verus!

//! The port-range grammar: comma-separated tokens, each a port number or an
//! inclusive `start-end` range, turned into an ascending list without repeats.
use vstd::prelude::*;
use vstd::string::*;

verus! {

/// The pieces of `s` between occurrences of `sep`, as `str::split` gives them:
/// an empty input gives one empty piece.
pub open spec fn split(s: Seq<char>, sep: char) -> Seq<Seq<char>>
    decreases s.len(),
{
    if s.len() == 0 {
        seq![Seq::<char>::empty()]
    } else {
        let rest = split(s.drop_last(), sep);
        if s.last() == sep {
            rest.push(Seq::<char>::empty())
        } else {
            rest.update(rest.len() - 1, rest.last().push(s.last()))
        }
    }
}

pub proof fn lemma_split_nonempty(s: Seq<char>, sep: char)
    ensures
        split(s, sep).len() >= 1,
    decreases s.len(),
{
    if s.len() > 0 {
        lemma_split_nonempty(s.drop_last(), sep);
    }
}

/// The character sequences that a list of character vectors holds.
pub open spec fn views(r: Seq<Vec<char>>) -> Seq<Seq<char>> {
    r.map_values(|v: Vec<char>| v@)
}

/// Splits a character vector at each `sep`.
pub fn split_chars(s: &Vec<char>, sep: char) -> (r: Vec<Vec<char>>)
    ensures
        views(r@) == split(s@, sep),
{
    let mut done: Vec<Vec<char>> = Vec::new();
    let mut cur: Vec<char> = Vec::new();
    let mut i: usize = 0;
    while i < s.len()
        invariant
            i <= s.len(),
            views(done@).push(cur@) == split(s@.take(i as int), sep),
        decreases s.len() - i,
    {
        proof {
            lemma_split_nonempty(s@.take(i as int), sep);
            assert(s@.take(i as int + 1).drop_last() == s@.take(i as int));
        }
        let c = s[i];
        if c == sep {
            let ghost old_done = done@;
            done.push(cur);
            assert(views(done@) =~= views(old_done).push(cur@));
            cur = Vec::new();
            assert(views(done@).push(cur@) =~= split(s@.take(i as int + 1), sep));
        } else {
            cur.push(c);
            assert(views(done@).push(cur@) =~= split(s@.take(i as int + 1), sep));
        }
        i = i + 1;
    }
    assert(s@.take(s.len() as int) == s@);
    let ghost old_done = done@;
    done.push(cur);
    assert(views(done@) =~= views(old_done).push(cur@));
    done
}

pub open spec fn is_digit(c: char) -> bool {
    '0' <= c && c <= '9'
}

pub open spec fn digit_value(c: char) -> nat {
    (c as u32 - '0' as u32) as nat
}

/// The number that a string of decimal digits writes.
pub open spec fn digits_value(d: Seq<char>) -> nat
    decreases d.len(),
{
    if d.len() == 0 {
        0
    } else {
        digits_value(d.drop_last()) * 10 + digit_value(d.last())
    }
}

/// A number's text without its optional leading `+`.
pub open spec fn unsigned_digits(t: Seq<char>) -> Seq<char> {
    if t.len() > 0 && t[0] == '+' {
        t.drop_first()
    } else {
        t
    }
}

/// What `t.parse::<u32>()` reads: an optional `+`, then one or more decimal
/// digits whose value fits in a `u32`.
pub open spec fn num(t: Seq<char>) -> Option<u32> {
    let d = unsigned_digits(t);
    if d.len() > 0 && (forall|i: int| 0 <= i < d.len() ==> is_digit(#[trigger] d[i])) && digits_value(d)
        <= u32::MAX {
        Some(digits_value(d) as u32)
    } else {
        None
    }
}

proof fn lemma_digits_value_grows(d: Seq<char>, j: int)
    requires
        0 <= j <= d.len(),
    ensures
        digits_value(d.take(j)) <= digits_value(d),
    decreases d.len() - j,
{
    if j < d.len() {
        lemma_digits_value_grows(d, j + 1);
        assert(d.take(j + 1).drop_last() == d.take(j));
    } else {
        assert(d.take(j) == d);
    }
}

/// Reads a port number; `None` where `num` has none.
pub fn parse_num(t: &Vec<char>) -> (r: Option<u32>)
    ensures
        r == num(t@),
{
    let mut start: usize = 0;
    if t.len() > 0 && t[0] == '+' {
        start = 1;
    }
    let ghost d = unsigned_digits(t@);
    assert(d == t@.subrange(start as int, t@.len() as int));
    if start >= t.len() {
        return None;
    }
    let mut val: u64 = 0;
    let mut i: usize = start;
    while i < t.len()
        invariant
            start <= i <= t.len(),
            d == unsigned_digits(t@),
            d == t@.subrange(start as int, t@.len() as int),
            val as nat == digits_value(d.take(i - start)),
            val <= u32::MAX,
            forall|k: int| 0 <= k < i - start ==> is_digit(#[trigger] d[k]),
        decreases t.len() - i,
    {
        let c = t[i];
        assert(d[i - start] == c);
        if !('0' <= c && c <= '9') {
            assert(!is_digit(d[i - start]));
            return None;
        }
        assert(d.take(i - start + 1).drop_last() == d.take(i - start));
        assert(d.take(i - start + 1).last() == c);
        val = val * 10 + (c as u32 - '0' as u32) as u64;
        if val > u32::MAX as u64 {
            proof {
                lemma_digits_value_grows(d, i - start + 1);
                assert(digits_value(d.take(i - start + 1)) == val as nat);
            }
            return None;
        }
        i = i + 1;
    }
    assert(d.take(i - start) == d);
    Some(val as u32)
}

/// The inclusive range that one token names; a lone number `n` names `n-n`.
pub open spec fn token_range(t: Seq<char>) -> Option<(u32, u32)> {
    let parts = split(t, '-');
    if parts.len() == 1 {
        match num(parts[0]) {
            Some(n) => Some((n, n)),
            None => None,
        }
    } else if parts.len() == 2 {
        match (num(parts[0]), num(parts[1])) {
            (Some(a), Some(b)) => Some((a, b)),
            _ => None,
        }
    } else {
        None
    }
}

/// The ports from `a` to `b`, both included; empty where `a > b`.
pub open spec fn range_set(a: u32, b: u32) -> Set<u32> {
    Set::new(|x: u32| a <= x && x <= b)
}

/// The ports that a list of tokens names, or `None` if one token is malformed.
pub open spec fn tokens_set(toks: Seq<Seq<char>>) -> Option<Set<u32>>
    decreases toks.len(),
{
    if toks.len() == 0 {
        Some(Set::empty())
    } else {
        match (tokens_set(toks.drop_last()), token_range(toks.last())) {
            (Some(s), Some((a, b))) => Some(s.union(range_set(a, b))),
            _ => None,
        }
    }
}

/// The ports that a port-range text names, or `None` where the text is
/// malformed: it holds a space, or one of its comma-separated tokens is not a
/// number or a pair of numbers joined by one `-`.
pub open spec fn port_set(s: Seq<char>) -> Option<Set<u32>> {
    if s.contains(' ') {
        None
    } else {
        tokens_set(split(s, ','))
    }
}

pub open spec fn strictly_increasing(v: Seq<u32>) -> bool {
    forall|i: int, j: int| 0 <= i < j < v.len() ==> v[i] < v[j]
}

pub proof fn lemma_tokens_set_prefix_none(toks: Seq<Seq<char>>, k: int)
    requires
        0 <= k <= toks.len(),
        tokens_set(toks.take(k)) is None,
    ensures
        tokens_set(toks) is None,
    decreases toks.len() - k,
{
    if k < toks.len() {
        assert(toks.take(k + 1).drop_last() == toks.take(k));
        lemma_tokens_set_prefix_none(toks, k + 1);
    } else {
        assert(toks.take(k) == toks);
    }
}

/// Reads one token.
pub fn parse_token(t: &Vec<char>) -> (r: Option<(u32, u32)>)
    ensures
        r == token_range(t@),
{
    let parts = split_chars(t, '-');
    assert(views(parts@).len() == parts@.len());
    if parts.len() == 1 {
        assert(views(parts@)[0] == parts@[0]@);
        match parse_num(&parts[0]) {
            Some(n) => Some((n, n)),
            None => None,
        }
    } else if parts.len() == 2 {
        assert(views(parts@)[0] == parts@[0]@);
        assert(views(parts@)[1] == parts@[1]@);
        let a = parse_num(&parts[0]);
        let b = parse_num(&parts[1]);
        match (a, b) {
            (Some(a), Some(b)) => Some((a, b)),
            _ => None,
        }
    } else {
        None
    }
}

/// Adds `x` to an ascending list without repeats, keeping it so.
pub fn insert_sorted(v: &mut Vec<u32>, x: u32)
    requires
        strictly_increasing(old(v)@),
    ensures
        strictly_increasing(final(v)@),
        final(v)@.to_set() == old(v)@.to_set().insert(x),
{
    let mut i: usize = 0;
    while i < v.len() && v[i] < x
        invariant
            i <= v.len(),
            v@ == old(v)@,
            forall|k: int| 0 <= k < i ==> v@[k] < x,
        decreases v.len() - i,
    {
        i = i + 1;
    }
    if i < v.len() && v[i] == x {
        assert(v@.contains(x));
        assert(v@.to_set().insert(x) =~= v@.to_set());
        return;
    }
    let ghost before = v@;
    v.insert(i, x);
    assert(v@ == before.insert(i as int, x));
    assert forall|a: int, b: int| 0 <= a < b < v@.len() implies v@[a] < v@[b] by {
        if b < i {
        } else if b == i {
        } else if a < i {
            assert(before[b - 1] > x || before[b - 1] == x);
        } else if a == i {
            assert(before[i as int] >= x);
            assert(before[i as int] != x);
            if b - 1 > i {
                assert(before[i as int] < before[b - 1]);
            }
        } else {
        }
    }
    assert forall|y: u32| v@.contains(y) <==> before.to_set().insert(x).contains(y) by {
        if v@.contains(y) {
            let k = choose|k: int| 0 <= k < v@.len() && v@[k] == y;
            if k < i {
                assert(before[k] == y);
            } else if k > i {
                assert(before[k - 1] == y);
            }
        }
        if before.contains(y) {
            let k = choose|k: int| 0 <= k < before.len() && before[k] == y;
            if k < i {
                assert(v@[k] == y);
            } else {
                assert(v@[k + 1] == y);
            }
        }
        if y == x {
            assert(v@[i as int] == x);
        }
    }
    assert(v@.to_set() =~= before.to_set().insert(x));
}

/// Adds the ports from `a` to `b` to an ascending list without repeats.
pub fn insert_range(v: &mut Vec<u32>, a: u32, b: u32)
    requires
        strictly_increasing(old(v)@),
    ensures
        strictly_increasing(final(v)@),
        final(v)@.to_set() == old(v)@.to_set().union(range_set(a, b)),
{
    let mut j: u64 = a as u64;
    while j <= b as u64
        invariant
            a as u64 <= j,
            j <= b as u64 + 1 || j == a as u64,
            strictly_increasing(v@),
            v@.to_set() == old(v)@.to_set().union(Set::new(|x: u32| a <= x && (x as u64) < j)),
        decreases b as u64 + 1 - j,
    {
        let ghost prev = v@.to_set();
        insert_sorted(v, j as u32);
        assert(Set::new(|x: u32| a <= x && (x as u64) < j + 1) =~= Set::new(
            |x: u32| a <= x && (x as u64) < j,
        ).insert(j as u32));
        assert(v@.to_set() =~= old(v)@.to_set().union(
            Set::new(|x: u32| a <= x && (x as u64) < j + 1),
        ));
        j = j + 1;
    }
    assert(Set::new(|x: u32| a <= x && (x as u64) < j) =~= range_set(a, b));
}

/// The characters of a string, one by one.
pub fn chars_of(s: &str) -> (r: Vec<char>)
    ensures
        r@ == s@,
{
    let n = s.unicode_len();
    let mut r: Vec<char> = Vec::new();
    let mut i: usize = 0;
    while i < n
        invariant
            n == s@.len(),
            i <= n,
            r@ == s@.take(i as int),
        decreases n - i,
    {
        let c = s.get_char(i);
        r.push(c);
        i = i + 1;
        assert(r@ =~= s@.take(i as int));
    }
    assert(s@.take(n as int) == s@);
    r
}

/// Whether `s` holds the character `c`.
pub fn has_char(s: &Vec<char>, c: char) -> (r: bool)
    ensures
        r == s@.contains(c),
{
    let mut i: usize = 0;
    while i < s.len()
        invariant
            i <= s.len(),
            forall|k: int| 0 <= k < i ==> s@[k] != c,
        decreases s.len() - i,
    {
        if s[i] == c {
            assert(s@[i as int] == c);
            return true;
        }
        i = i + 1;
    }
    false
}

/// The character of a decimal digit.
pub open spec fn digit_char(d: nat) -> char {
    if d == 0 {
        '0'
    } else if d == 1 {
        '1'
    } else if d == 2 {
        '2'
    } else if d == 3 {
        '3'
    } else if d == 4 {
        '4'
    } else if d == 5 {
        '5'
    } else if d == 6 {
        '6'
    } else if d == 7 {
        '7'
    } else if d == 8 {
        '8'
    } else {
        '9'
    }
}

/// The decimal text of `n`, without leading zeros.
pub open spec fn decimal(n: nat) -> Seq<char>
    decreases n,
{
    if n < 10 {
        seq![digit_char(n)]
    } else {
        decimal(n / 10).push(digit_char(n % 10))
    }
}

/// Numbers written in decimal and joined by `sep`.
pub open spec fn join_with(v: Seq<u32>, sep: char) -> Seq<char>
    decreases v.len(),
{
    if v.len() == 0 {
        Seq::empty()
    } else if v.len() == 1 {
        decimal(v[0] as nat)
    } else {
        join_with(v.drop_last(), sep) + seq![sep] + decimal(v.last() as nat)
    }
}

/// A port list written as its numbers joined by commas.
pub open spec fn join_ports(v: Seq<u32>) -> Seq<char> {
    join_with(v, ',')
}

fn digit_text(d: u32) -> (r: &'static str)
    requires
        d < 10,
    ensures
        r@ == seq![digit_char(d as nat)],
{
    proof {
        reveal_strlit("0");
        reveal_strlit("1");
        reveal_strlit("2");
        reveal_strlit("3");
        reveal_strlit("4");
        reveal_strlit("5");
        reveal_strlit("6");
        reveal_strlit("7");
        reveal_strlit("8");
        reveal_strlit("9");
    }
    if d == 0 {
        "0"
    } else if d == 1 {
        "1"
    } else if d == 2 {
        "2"
    } else if d == 3 {
        "3"
    } else if d == 4 {
        "4"
    } else if d == 5 {
        "5"
    } else if d == 6 {
        "6"
    } else if d == 7 {
        "7"
    } else if d == 8 {
        "8"
    } else {
        "9"
    }
}

/// Appends the decimal text of `n`.
pub fn push_decimal(s: &mut String, n: u32)
    ensures
        final(s)@ == old(s)@ + decimal(n as nat),
    decreases n,
{
    if n >= 10 {
        push_decimal(s, n / 10);
    }
    s.append(digit_text(n % 10));
    assert(final(s)@ =~= old(s)@ + decimal(n as nat));
}

/// Writes a port list as its numbers joined by commas, such as `1,2,8`.
pub fn format_ports(v: &Vec<u32>) -> (r: String)
    ensures
        r@ == join_ports(v@),
{
    let mut r = String::new();
    let mut k: usize = 0;
    assert(v@.take(0) =~= Seq::<u32>::empty());
    while k < v.len()
        invariant
            k <= v.len(),
            r@ == join_ports(v@.take(k as int)),
        decreases v.len() - k,
    {
        assert(v@.take(k as int + 1).drop_last() == v@.take(k as int));
        if k > 0 {
            proof {
                reveal_strlit(",");
            }
            r.append(",");
        }
        push_decimal(&mut r, v[k]);
        assert(r@ =~= join_ports(v@.take(k as int + 1)));
        k = k + 1;
    }
    assert(v@.take(k as int) == v@);
    r
}

proof fn lemma_digit_char(d: nat)
    requires
        d < 10,
    ensures
        is_digit(digit_char(d)),
        digit_value(digit_char(d)) == d,
{
}

proof fn lemma_decimal(n: nat)
    ensures
        decimal(n).len() > 0,
        forall|i: int| 0 <= i < decimal(n).len() ==> is_digit(#[trigger] decimal(n)[i]),
        digits_value(decimal(n)) == n,
    decreases n,
{
    lemma_digit_char(n % 10);
    if n >= 10 {
        lemma_decimal(n / 10);
        assert(decimal(n).drop_last() == decimal(n / 10));
        assert(decimal(n).last() == digit_char(n % 10));
        assert(digit_value(decimal(n).last()) == n % 10);
        assert(digits_value(decimal(n)) == digits_value(decimal(n / 10)) * 10 + n % 10);
        assert(n == (n / 10) * 10 + n % 10);
    } else {
        assert(decimal(n).drop_last() =~= Seq::<char>::empty());
        assert(decimal(n).last() == digit_char(n));
        assert(digits_value(decimal(n).drop_last()) == 0);
        assert(digits_value(decimal(n)) == digit_value(digit_char(n)));
    }
}

pub proof fn lemma_num_decimal(n: u32)
    ensures
        num(decimal(n as nat)) == Some(n),
{
    lemma_decimal(n as nat);
    assert(is_digit(decimal(n as nat)[0]));
    assert(unsigned_digits(decimal(n as nat)) == decimal(n as nat));
}

proof fn lemma_split_no_sep(t: Seq<char>, sep: char)
    requires
        !t.contains(sep),
    ensures
        split(t, sep) == seq![t],
    decreases t.len(),
{
    if t.len() > 0 {
        assert(!t.drop_last().contains(sep)) by {
            if t.drop_last().contains(sep) {
                let k = choose|k: int| 0 <= k < t.drop_last().len() && t.drop_last()[k] == sep;
                assert(t[k] == sep);
            }
        }
        lemma_split_no_sep(t.drop_last(), sep);
        assert(t.last() != sep) by {
            assert(t[t.len() - 1] == t.last());
        }
        assert(t.drop_last().push(t.last()) == t);
        assert(split(t, sep) =~= seq![t]);
    } else {
        assert(t =~= Seq::<char>::empty());
    }
}

proof fn lemma_split_append(a: Seq<char>, b: Seq<char>, sep: char)
    requires
        !b.contains(sep),
    ensures
        split(a + b, sep) == split(a, sep).update(
            split(a, sep).len() - 1,
            split(a, sep).last() + b,
        ),
    decreases b.len(),
{
    lemma_split_nonempty(a, sep);
    if b.len() == 0 {
        assert(a + b == a);
        assert(split(a, sep).last() + b == split(a, sep).last());
        assert(split(a, sep).update(split(a, sep).len() - 1, split(a, sep).last())
            =~= split(a, sep));
    } else {
        assert(!b.drop_last().contains(sep)) by {
            if b.drop_last().contains(sep) {
                let k = choose|k: int| 0 <= k < b.drop_last().len() && b.drop_last()[k] == sep;
                assert(b[k] == sep);
            }
        }
        assert(b.last() != sep) by {
            assert(b[b.len() - 1] == b.last());
        }
        lemma_split_append(a, b.drop_last(), sep);
        assert((a + b).drop_last() == a + b.drop_last());
        assert((a + b).last() == b.last());
        assert((split(a, sep).last() + b.drop_last()).push(b.last()) == split(a, sep).last()
            + b);
        assert(split(a + b, sep) =~= split(a, sep).update(
            split(a, sep).len() - 1,
            split(a, sep).last() + b,
        ));
    }
}

/// The decimal texts of a list of ports.
pub open spec fn decimals(v: Seq<u32>) -> Seq<Seq<char>> {
    v.map_values(|n: u32| decimal(n as nat))
}

proof fn lemma_decimal_plain(n: nat, c: char)
    requires
        !is_digit(c),
    ensures
        !decimal(n).contains(c),
{
    lemma_decimal(n);
    if decimal(n).contains(c) {
        let k = choose|k: int| 0 <= k < decimal(n).len() && decimal(n)[k] == c;
        assert(is_digit(decimal(n)[k]));
    }
}

/// Splitting numbers joined by a separator that is no digit gives back their
/// decimal texts.
pub proof fn lemma_join_with(v: Seq<u32>, sep: char)
    requires
        v.len() > 0,
        !is_digit(sep),
        sep != ' ',
    ensures
        split(join_with(v, sep), sep) == decimals(v),
        !join_with(v, sep).contains(' '),
    decreases v.len(),
{
    lemma_decimal_plain(v.last() as nat, sep);
    lemma_decimal_plain(v.last() as nat, ' ');
    if v.len() == 1 {
        lemma_split_no_sep(decimal(v[0] as nat), sep);
        assert(decimals(v) =~= seq![decimal(v[0] as nat)]);
    } else {
        lemma_join_with(v.drop_last(), sep);
        let a = join_with(v.drop_last(), sep);
        let b = decimal(v.last() as nat);
        lemma_split_append(a + seq![sep], b, sep);
        assert((a + seq![sep]).drop_last() == a);
        assert(split(a + seq![sep], sep) == split(a, sep).push(Seq::<char>::empty()));
        assert(Seq::<char>::empty() + b == b);
        assert(split(join_with(v, sep), sep) =~= decimals(v));
        if join_with(v, sep).contains(' ') {
            let k = choose|k: int| 0 <= k < join_with(v, sep).len() && join_with(v, sep)[k] == ' ';
            if k < a.len() {
                assert(a[k] == ' ');
            } else if k > a.len() {
                assert(b[k - a.len() - 1] == ' ');
            }
        }
    }
}

proof fn lemma_tokens_set_decimals(v: Seq<u32>)
    ensures
        tokens_set(decimals(v)) == Some(v.to_set()),
    decreases v.len(),
{
    if v.len() == 0 {
        assert(v.to_set() =~= Set::<u32>::empty());
    } else {
        let n = v.last();
        lemma_tokens_set_decimals(v.drop_last());
        assert(decimals(v).drop_last() =~= decimals(v.drop_last()));
        lemma_decimal_plain(n as nat, '-');
        lemma_split_no_sep(decimal(n as nat), '-');
        lemma_num_decimal(n);
        assert(token_range(decimals(v).last()) == Some((n, n)));
        assert forall|x: u32| v.to_set().contains(x) <==> v.drop_last().to_set().union(
            range_set(n, n),
        ).contains(x) by {
            if v.contains(x) {
                let k = choose|k: int| 0 <= k < v.len() && v[k] == x;
                if k < v.len() - 1 {
                    assert(v.drop_last()[k] == x);
                }
            }
            if v.drop_last().contains(x) {
                let k = choose|k: int| 0 <= k < v.drop_last().len() && v.drop_last()[k] == x;
                assert(v[k] == x);
            }
            if x == n {
                assert(v[v.len() - 1] == n);
            }
        }
        assert(v.to_set() =~= v.drop_last().to_set().union(range_set(n, n)));
    }
}

/// Two ascending lists without repeats that hold the same ports are equal.
pub proof fn lemma_sorted_unique(v: Seq<u32>, w: Seq<u32>)
    requires
        strictly_increasing(v),
        strictly_increasing(w),
        v.to_set() == w.to_set(),
    ensures
        v == w,
    decreases v.len(),
{
    if v.len() == 0 {
        if w.len() > 0 {
            assert(w.to_set().contains(w[0]));
        }
        assert(v =~= w);
    } else {
        assert(v.to_set().contains(v.last()));
        assert(w.to_set().contains(v.last()));
        let k = choose|k: int| 0 <= k < w.len() && w[k] == v.last();
        assert(w.to_set().contains(w.last()));
        let j = choose|j: int| 0 <= j < v.len() && v[j] == w.last();
        assert(w.last() == v.last()) by {
            if k < w.len() - 1 {
                assert(w[k] < w[w.len() - 1]);
            }
            if j < v.len() - 1 {
                assert(v[j] < v[v.len() - 1]);
            }
        }
        let m = v.last();
        assert forall|x: u32| v.drop_last().to_set().contains(x) <==> w.drop_last().to_set().contains(
            x,
        ) by {
            if v.drop_last().contains(x) {
                let a = choose|a: int| 0 <= a < v.drop_last().len() && v.drop_last()[a] == x;
                assert(v[a] < v[v.len() - 1]);
                assert(v.to_set().contains(x));
                let b = choose|b: int| 0 <= b < w.len() && w[b] == x;
                if b == w.len() - 1 {
                    assert(false);
                }
                assert(w.drop_last()[b] == x);
            }
            if w.drop_last().contains(x) {
                let a = choose|a: int| 0 <= a < w.drop_last().len() && w.drop_last()[a] == x;
                assert(w[a] < w[w.len() - 1]);
                assert(w.to_set().contains(x));
                let b = choose|b: int| 0 <= b < v.len() && v[b] == x;
                if b == v.len() - 1 {
                    assert(false);
                }
                assert(v.drop_last()[b] == x);
            }
        }
        assert(v.drop_last().to_set() =~= w.drop_last().to_set());
        lemma_sorted_unique(v.drop_last(), w.drop_last());
        assert(v == v.drop_last().push(m));
        assert(w == w.drop_last().push(m));
    }
}

/// Parsing is idempotent on its own output: where a port-range text names the
/// non-empty ascending list `v`, the text that `format_ports` writes for `v`
/// names the same ports, and `v` is the only ascending list without repeats
/// that holds them, so parsing it gives `v` again.
pub proof fn lemma_parse_format_parse(s: Seq<char>, v: Seq<u32>)
    requires
        port_set(s) == Some(v.to_set()),
        strictly_increasing(v),
        v.len() > 0,
    ensures
        port_set(join_ports(v)) == port_set(s),
        forall|w: Seq<u32>| #[trigger]
            strictly_increasing(w) && w.to_set() == v.to_set() ==> w == v,
{
    lemma_join_with(v, ',');
    lemma_tokens_set_decimals(v);
    assert forall|w: Seq<u32>| #[trigger]
        strictly_increasing(w) && w.to_set() == v.to_set() implies w == v by {
        lemma_sorted_unique(w, v);
    }
}

} // verus!

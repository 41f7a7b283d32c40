//! Text: comparison, trimming, numbers and optional columns.
use vstd::prelude::*;
use vstd::string::*;
use vstd::utf8::*;

verus! {

/// The text held by an optional column.
pub open spec fn opt(o: Option<String>) -> Option<Seq<char>> {
    match o {
        Some(s) => Some(s@),
        None => None,
    }
}

/// The text of an optional argument.
pub open spec fn arg(o: Option<&str>) -> Option<Seq<char>> {
    match o {
        Some(s) => Some(s@),
        None => None,
    }
}

/// The texts of a list of strings.
pub open spec fn texts(v: Seq<String>) -> Seq<Seq<char>> {
    v.map_values(|s: String| s@)
}

pub fn owned(o: Option<&str>) -> (r: Option<String>)
    ensures
        opt(r) == arg(o),
{
    match o {
        Some(s) => Some(s.to_owned()),
        None => None,
    }
}

pub fn borrowed(o: &Option<String>) -> (r: Option<&str>)
    ensures
        arg(r) == opt(*o),
{
    match o {
        Some(s) => Some(s.as_str()),
        None => None,
    }
}

pub fn copied(o: &Option<String>) -> (r: Option<String>)
    ensures
        opt(r) == opt(*o),
{
    match o {
        Some(s) => Some(s.clone()),
        None => None,
    }
}

/// Two texts are the same.
pub fn same(a: &str, b: &str) -> (r: bool)
    ensures
        r == (a@ == b@),
{
    let x = a.as_bytes();
    let y = b.as_bytes();
    proof {
        encode_utf8_decode_utf8(a@);
        encode_utf8_decode_utf8(b@);
    }
    if x.len() != y.len() {
        return false;
    }
    let mut i: usize = 0;
    while i < x.len()
        invariant
            i <= x.len(),
            x.len() == y.len(),
            x@ == encode_utf8(a@),
            y@ == encode_utf8(b@),
            forall|j: int| 0 <= j < i ==> x@[j] == y@[j],
        decreases x.len() - i,
    {
        if x[i] != y[i] {
            return false;
        }
        i += 1;
    }
    assert(x@ =~= y@);
    true
}

/// The column is set, and to this text.
pub fn is_text(o: &Option<String>, s: &str) -> (r: bool)
    ensures
        r == (opt(*o) == Some(s@)),
{
    match o {
        Some(t) => same(t.as_str(), s),
        None => false,
    }
}

/// Two optional texts are the same.
pub fn same_opt(a: Option<&str>, b: Option<&str>) -> (r: bool)
    ensures
        r == (arg(a) == arg(b)),
{
    match (a, b) {
        (Some(x), Some(y)) => same(x, y),
        (None, None) => true,
        _ => false,
    }
}

/// The characters of a text, in order.
pub fn chars_of(s: &str) -> (v: Vec<char>)
    ensures
        v@ == s@,
{
    let mut v: Vec<char> = Vec::new();
    for c in it: s.chars()
        invariant
            v@ == it.seq().take(it.index() as int),
            it.seq() == s@,
    {
        v.push(c);
    }
    assert(s@.take(s@.len() as int) =~= s@);
    v
}

// ---------------------------------------------------------------- whitespace

/// A character with the Unicode property `White_Space`.
pub open spec fn is_white(c: char) -> bool {
    let u = c as int;
    ||| 0x09 <= u <= 0x0d
    ||| u == 0x20
    ||| u == 0x85
    ||| u == 0xa0
    ||| u == 0x1680
    ||| 0x2000 <= u <= 0x200a
    ||| u == 0x2028
    ||| u == 0x2029
    ||| u == 0x202f
    ||| u == 0x205f
    ||| u == 0x3000
}

pub open spec fn without_leading_white(s: Seq<char>) -> Seq<char>
    decreases s.len(),
{
    if s.len() > 0 && is_white(s[0]) {
        without_leading_white(s.skip(1))
    } else {
        s
    }
}

pub open spec fn without_trailing_white(s: Seq<char>) -> Seq<char>
    decreases s.len(),
{
    if s.len() > 0 && is_white(s.last()) {
        without_trailing_white(s.drop_last())
    } else {
        s
    }
}

/// The text without the whitespace around it.
pub open spec fn trimmed(s: Seq<char>) -> Seq<char> {
    without_trailing_white(without_leading_white(s))
}

/// The text is empty, or whitespace only.
pub open spec fn is_blank(s: Seq<char>) -> bool {
    trimmed(s).len() == 0
}

fn white(c: char) -> (r: bool)
    ensures
        r == is_white(c),
{
    let u: u32 = c as u32;
    (0x09 <= u && u <= 0x0d) || u == 0x20 || u == 0x85 || u == 0xa0 || u == 0x1680 || (0x2000 <= u && u <= 0x200a)
        || u == 0x2028 || u == 0x2029 || u == 0x202f || u == 0x205f || u == 0x3000
}

pub fn trim(s: &str) -> (r: &str)
    ensures
        r@ == trimmed(s@),
{
    let v = chars_of(s);
    let mut from: usize = 0;
    let n: usize = v.len();
    assert(s@.skip(0) =~= s@);
    while from < n && white(v[from])
        invariant
            from <= n,
            n == v.len(),
            v@ == s@,
            without_leading_white(s@.skip(from as int)) == without_leading_white(s@),
        decreases n - from,
    {
        assert(s@.skip(from as int).skip(1) =~= s@.skip(from as int + 1));
        from += 1;
    }
    let ghost body = s@.skip(from as int);
    assert(without_leading_white(s@) == body);
    let mut to: usize = n;
    assert(s@.subrange(from as int, n as int) =~= body);
    while to > from && white(v[to - 1])
        invariant
            from <= to <= n,
            n == v.len(),
            v@ == s@,
            without_trailing_white(s@.subrange(from as int, to as int)) == without_trailing_white(body),
        decreases to,
    {
        assert(s@.subrange(from as int, to as int).drop_last() =~= s@.subrange(from as int, to - 1));
        to -= 1;
    }
    s.substring_char(from, to)
}

/// The text is empty, or whitespace only.
pub fn blank(s: &str) -> (r: bool)
    ensures
        r == is_blank(s@),
{
    trim(s).unicode_len() == 0
}

// ---------------------------------------------------------------- order

/// `a` stands before `b` in the order of the code points.
pub open spec fn text_before(a: Seq<char>, b: Seq<char>) -> bool
    decreases a.len(),
{
    if b.len() == 0 {
        false
    } else if a.len() == 0 {
        true
    } else if a[0] != b[0] {
        (a[0] as int) < (b[0] as int)
    } else {
        text_before(a.skip(1), b.skip(1))
    }
}

fn char_below(a: char, b: char) -> (r: bool)
    ensures
        r == ((a as int) < (b as int)),
{
    (a as u32) < (b as u32)
}

pub fn precedes(a: &str, b: &str) -> (r: bool)
    ensures
        r == text_before(a@, b@),
{
    let x = chars_of(a);
    let y = chars_of(b);
    let mut i: usize = 0;
    assert(a@.skip(0) =~= a@ && b@.skip(0) =~= b@);
    while i < x.len() && i < y.len()
        invariant
            i <= x.len(),
            i <= y.len(),
            x@ == a@,
            y@ == b@,
            text_before(a@, b@) == text_before(a@.skip(i as int), b@.skip(i as int)),
        decreases x.len() - i,
    {
        if x[i] != y[i] {
            return char_below(x[i], y[i]);
        }
        assert(a@.skip(i as int).skip(1) =~= a@.skip(i as int + 1));
        assert(b@.skip(i as int).skip(1) =~= b@.skip(i as int + 1));
        i += 1;
    }
    i < y.len()
}

/// The order of texts is strict: no text stands before itself, and never both ways.
pub proof fn text_order_is_strict(a: Seq<char>, b: Seq<char>)
    ensures
        !text_before(a, a),
        text_before(a, b) ==> !text_before(b, a),
    decreases a.len(),
{
    if a.len() > 0 && b.len() > 0 {
        text_order_is_strict(a.skip(1), b.skip(1));
    }
    if a.len() > 0 {
        text_order_is_strict(a.skip(1), a.skip(1));
    }
}

/// The order of texts is total: of two different texts one stands before the other.
pub proof fn text_order_is_total(a: Seq<char>, b: Seq<char>)
    ensures
        a == b || text_before(a, b) || text_before(b, a),
    decreases a.len(),
{
    if a.len() > 0 && b.len() > 0 {
        text_order_is_total(a.skip(1), b.skip(1));
        if a[0] == b[0] && a.skip(1) == b.skip(1) {
            assert(a =~= seq![a[0]] + a.skip(1));
            assert(b =~= seq![b[0]] + b.skip(1));
        }
    } else if a.len() == 0 && b.len() == 0 {
        assert(a =~= b);
    }
}

/// The order of texts is transitive.
pub proof fn text_order_is_transitive(a: Seq<char>, b: Seq<char>, c: Seq<char>)
    requires
        text_before(a, b),
        text_before(b, c),
    ensures
        text_before(a, c),
    decreases a.len(),
{
    if a.len() > 0 && b.len() > 0 && c.len() > 0 && a[0] == b[0] && b[0] == c[0] {
        text_order_is_transitive(a.skip(1), b.skip(1), c.skip(1));
    }
}

/// A text that does not stand before another, which does not stand before a third, does not stand
/// before the third.
pub proof fn text_order_is_weak(a: Seq<char>, b: Seq<char>, c: Seq<char>)
    requires
        !text_before(a, b),
        !text_before(b, c),
    ensures
        !text_before(a, c),
{
    text_order_is_total(a, b);
    text_order_is_total(b, c);
    text_order_is_strict(a, c);
    text_order_is_strict(b, c);
    text_order_is_strict(c, b);
    if text_before(b, a) && text_before(a, c) {
        text_order_is_transitive(b, a, c);
    }
}

// ---------------------------------------------------------------- numbers

pub open spec fn digit_char(d: int) -> char {
    (d + 48) as char
}

/// The decimal digits of a number, without leading zeros.
pub open spec fn digits(n: nat) -> Seq<char>
    decreases n,
{
    if n < 10 {
        seq![digit_char(n as int)]
    } else {
        digits(n / 10).push(digit_char((n % 10) as int))
    }
}

/// The decimal text of an integer.
pub open spec fn decimal(n: int) -> Seq<char> {
    if n < 0 {
        seq!['-'] + digits((-n) as nat)
    } else {
        digits(n as nat)
    }
}

fn digit_text(d: u64) -> (r: &'static str)
    requires
        d < 10,
    ensures
        r@ == seq![digit_char(d as int)],
{
    proof {
        reveal_strlit("0");
        reveal_strlit("1");
        reveal_strlit("2");
        reveal_strlit("3");
        reveal_strlit("4");
        reveal_strlit("5");
        reveal_strlit("6");
        reveal_strlit("7");
        reveal_strlit("8");
        reveal_strlit("9");
    }
    if d == 0 {
        "0"
    } else if d == 1 {
        "1"
    } else if d == 2 {
        "2"
    } else if d == 3 {
        "3"
    } else if d == 4 {
        "4"
    } else if d == 5 {
        "5"
    } else if d == 6 {
        "6"
    } else if d == 7 {
        "7"
    } else if d == 8 {
        "8"
    } else {
        "9"
    }
}

pub fn number(n: u64) -> (r: String)
    ensures
        r@ == digits(n as nat),
    decreases n,
{
    if n < 10 {
        digit_text(n).to_owned()
    } else {
        let mut s = number(n / 10);
        s.append(digit_text(n % 10));
        assert(s@ =~= digits((n / 10) as nat).push(digit_char((n % 10) as int)));
        s
    }
}

pub fn signed(n: i64) -> (r: String)
    ensures
        r@ == decimal(n as int),
{
    if n >= 0 {
        number(n as u64)
    } else {
        let m: u64 = ((-(n + 1)) as u64) + 1;
        proof {
            reveal_strlit("-");
        }
        let mut s = "-".to_owned();
        s.append(number(m).as_str());
        assert(s@ =~= seq!['-'] + digits(m as nat));
        s
    }
}

/// A text in quotes, as Rust's debug form has it.
pub uninterp spec fn quoted_text(s: Seq<char>) -> Seq<char>;

/// `format!` with the debug form of a string.
#[verifier::external_body]
pub(crate) fn quoted(s: &str) -> (r: String)
    ensures
        r@ == quoted_text(s@),
{
    format!("{s:?}")
}

/// Two texts one behind the other.
pub fn joined(a: &str, b: &str) -> (r: String)
    ensures
        r@ == a@ + b@,
{
    let mut s = a.to_owned();
    s.append(b);
    s
}

/// `prefix` stands at the front of a text.
pub fn starts_with(s: &str, prefix: &str) -> (r: bool)
    ensures
        r == prefix@.is_prefix_of(s@),
{
    let n: usize = prefix.unicode_len();
    if s.unicode_len() < n {
        return false;
    }
    same(s.substring_char(0, n), prefix)
}

/// The first of two optional texts that is there.
pub fn or(a: Option<&str>, b: &Option<String>) -> (r: Option<String>)
    ensures
        opt(r) == if a is Some {
            arg(a)
        } else {
            opt(*b)
        },
{
    match a {
        Some(s) => Some(s.to_owned()),
        None => copied(b),
    }
}

/// Different numbers have different decimal texts.
pub proof fn digits_name_the_number(a: nat, b: nat)
    ensures
        digits(a) == digits(b) ==> a == b,
    decreases a,
{
    if digits(a) == digits(b) {
        assert(digits(a).len() > 0 && digits(b).len() > 0);
        assert(digits(a).last() == digit_char((a % 10) as int));
        assert(digits(b).last() == digit_char((b % 10) as int));
        assert(a % 10 == b % 10);
        if a < 10 && b < 10 {
        } else if a < 10 {
            digits_are_there(b / 10);
            assert(digits(b).len() >= 2);
        } else if b < 10 {
            digits_are_there(a / 10);
            assert(digits(a).len() >= 2);
        } else {
            assert(digits(a).drop_last() =~= digits(a / 10));
            assert(digits(b).drop_last() =~= digits(b / 10));
            digits_name_the_number(a / 10, b / 10);
        }
    }
}

proof fn digits_are_there(n: nat)
    ensures
        digits(n).len() > 0,
    decreases n,
{
    if n >= 10 {
        digits_are_there(n / 10);
    }
}

/// A text that neither begins nor ends with whitespace stays as it is.
pub proof fn nothing_to_trim(s: Seq<char>)
    requires
        s.len() > 0,
        !is_white(s[0]),
        !is_white(s.last()),
    ensures
        trimmed(s) == s,
{
}

/// The number that a row of decimal digits names; `None` where something else is among them.
pub open spec fn digits_value(s: Seq<char>) -> Option<nat>
    decreases s.len(),
{
    if s.len() == 0 {
        Some(0)
    } else {
        match digits_value(s.drop_last()) {
            Some(n) => if '0' <= s.last() <= '9' {
                Some((n * 10 + (s.last() as int - 48)) as nat)
            } else {
                None
            },
            None => None,
        }
    }
}

/// The integer that a text names: digits, with one sign in front of them or none.
pub open spec fn integer(s: Seq<char>) -> Option<int> {
    let signed = s.len() > 0 && (s[0] == '-' || s[0] == '+');
    let rest = if signed {
        s.skip(1)
    } else {
        s
    };
    if rest.len() == 0 {
        None
    } else {
        match digits_value(rest) {
            Some(n) => Some(
                if signed && s[0] == '-' {
                    -(n as int)
                } else {
                    n as int
                },
            ),
            None => None,
        }
    }
}

/// The integer that a text names, where it fits.
pub open spec fn integer_64(s: Seq<char>) -> Option<i64> {
    match integer(s) {
        Some(n) => if i64::MIN <= n <= i64::MAX {
            Some(n as i64)
        } else {
            None
        },
        None => None,
    }
}

proof fn digits_value_of_prefix(s: Seq<char>, i: int)
    requires
        0 <= i <= s.len(),
        digits_value(s) is Some,
    ensures
        digits_value(s.take(i)) is Some,
        digits_value(s.take(i))->0 <= digits_value(s)->0,
    decreases s.len() - i,
{
    if i < s.len() {
        digits_value_of_prefix(s, i + 1);
        assert(s.take(i + 1).drop_last() =~= s.take(i));
    } else {
        assert(s.take(i) =~= s);
    }
}

/// The integer that a text names, where it fits 64 bits.
pub fn parse_i64(s: &str) -> (r: Option<i64>)
    ensures
        r == integer_64(s@),
{
    let v = chars_of(s);
    let n: usize = v.len();
    let signed: bool = n > 0 && (v[0] == '-' || v[0] == '+');
    let from: usize = if signed {
        1
    } else {
        0
    };
    let ghost rest = if signed {
        s@.skip(1)
    } else {
        s@
    };
    if from == n {
        return None;
    }
    let mut acc: u128 = 0;
    let mut i: usize = from;
    assert(rest.take(0) =~= Seq::<char>::empty());
    while i < n
        invariant
            from <= i <= n,
            from <= 1,
            n == v.len(),
            rest.len() == n - from,
            forall|j: int| 0 <= j < rest.len() ==> #[trigger] rest[j] == v@[j + from],
            acc <= 0x1_0000_0000_0000_0000,
            digits_value(rest.take(i - from)) == Some(acc as nat),
            rest.len() > 0,
            signed == (s@.len() > 0 && (s@[0] == '-' || s@[0] == '+')),
            rest == if signed {
                s@.skip(1)
            } else {
                s@
            },
        decreases n - i,
    {
        let c: char = v[i];
        proof {
            assert(rest[i - from] == c);
            assert(rest.take(i - from + 1).drop_last() =~= rest.take(i - from));
            if digits_value(rest) is Some {
                digits_value_of_prefix(rest, i - from + 1);
            }
        }
        if !('0' <= c && c <= '9') {
            return None;
        }
        let d: u128 = c as u128 - 48;
        acc = acc * 10 + d;
        if acc > 0x1_0000_0000_0000_0000 {
            return None;
        }
        i += 1;
    }
    assert(rest.take(n - from) =~= rest);
    if signed && v[0] == '-' {
        if acc <= 0x7fff_ffff_ffff_ffff {
            let m: i64 = acc as i64;
            Some(-m)
        } else if acc == 0x8000_0000_0000_0000 {
            Some(i64::MIN)
        } else {
            None
        }
    } else if acc <= 0x7fff_ffff_ffff_ffff {
        Some(acc as i64)
    } else {
        None
    }
}

// ---------------------------------------------------------------- searching

/// A text stands in another one at a place.
pub open spec fn occurs_at(s: Seq<char>, part: Seq<char>, i: int) -> bool {
    0 <= i && i + part.len() <= s.len() && s.subrange(i, i + part.len()) == part
}

/// Where a text first stands in another one, from a place on.
pub open spec fn found_from(s: Seq<char>, part: Seq<char>, i: int) -> Option<int>
    decreases s.len() - i + 1,
{
    if i < 0 || i > s.len() {
        None
    } else if occurs_at(s, part, i) {
        Some(i)
    } else {
        found_from(s, part, i + 1)
    }
}

/// Where a text first stands in another one.
pub open spec fn found(s: Seq<char>, part: Seq<char>) -> Option<int> {
    found_from(s, part, 0)
}

/// Where `part` first stands in `s`, counted in characters.
pub fn find(s: &str, part: &str) -> (r: Option<usize>)
    ensures
        match r {
            Some(i) => found(s@, part@) == Some(i as int) && i + part@.len() <= s@.len(),
            None => found(s@, part@) is None,
        },
{
    find_in(&chars_of(s), &chars_of(part))
}

/// Where the characters `p` first stand in `v`.
pub fn find_in(v: &Vec<char>, p: &Vec<char>) -> (r: Option<usize>)
    ensures
        match r {
            Some(i) => found(v@, p@) == Some(i as int) && i + p@.len() <= v@.len(),
            None => found(v@, p@) is None,
        },
{
    if p.len() > v.len() {
        proof {
            no_room(v@, p@, 0);
        }
        return None;
    }
    let last: usize = v.len() - p.len();
    let mut i: usize = 0;
    while i <= last
        invariant
            p.len() <= v.len(),
            last == v.len() - p.len(),
            i <= last + 1,
            found(v@, p@) == found_from(v@, p@, i as int),
        decreases last + 1 - i,
    {
        let mut j: usize = 0;
        while j < p.len() && v[i + j] == p[j]
            invariant
                i <= last,
                last == v.len() - p.len(),
                p.len() <= v.len(),
                j <= p.len(),
                forall|k: int| 0 <= k < j ==> v@[i + k] == #[trigger] p@[k],
            decreases p.len() - j,
        {
            j += 1;
        }
        if j == p.len() {
            assert(v@.subrange(i as int, i + p@.len()) =~= p@);
            return Some(i);
        }
        assert(!occurs_at(v@, p@, i as int)) by {
            if occurs_at(v@, p@, i as int) {
                assert(v@.subrange(i as int, i + p@.len())[j as int] == p@[j as int]);
            }
        }
        i += 1;
    }
    proof {
        no_room(v@, p@, i as int);
    }
    None
}

proof fn no_room(s: Seq<char>, part: Seq<char>, i: int)
    requires
        0 <= i,
        i + part.len() > s.len(),
    ensures
        found_from(s, part, i) is None,
    decreases s.len() - i + 1,
{
    if i <= s.len() {
        no_room(s, part, i + 1);
    }
}

/// A text without the slashes at its end.
pub open spec fn without_trailing_slashes(s: Seq<char>) -> Seq<char>
    decreases s.len(),
{
    if s.len() > 0 && s.last() == '/' {
        without_trailing_slashes(s.drop_last())
    } else {
        s
    }
}

pub fn trim_slashes(s: &str) -> (r: &str)
    ensures
        r@ == without_trailing_slashes(s@),
{
    let v = chars_of(s);
    let mut n: usize = v.len();
    assert(s@.subrange(0, n as int) =~= s@);
    while n > 0 && v[n - 1] == '/'
        invariant
            n <= v.len(),
            v@ == s@,
            without_trailing_slashes(s@.subrange(0, n as int)) == without_trailing_slashes(s@),
        decreases n,
    {
        assert(s@.subrange(0, n as int).drop_last() =~= s@.subrange(0, n - 1));
        n -= 1;
    }
    s.substring_char(0, n)
}

/// The first place of a text in another one is where it is found.
pub proof fn the_first_place_is_found(s: Seq<char>, part: Seq<char>, k: int)
    requires
        0 <= k,
        k + part.len() <= s.len(),
        s.subrange(k, k + part.len()) == part,
        forall|j: int| 0 <= j < k ==> #[trigger] s.subrange(j, j + part.len()) != part,
    ensures
        found(s, part) == Some(k),
{
    found_at(s, part, 0, k);
}

proof fn found_at(s: Seq<char>, part: Seq<char>, i: int, k: int)
    requires
        0 <= i <= k,
        k + part.len() <= s.len(),
        s.subrange(k, k + part.len()) == part,
        forall|j: int| 0 <= j < k ==> #[trigger] s.subrange(j, j + part.len()) != part,
    ensures
        found_from(s, part, i) == Some(k),
    decreases k - i,
{
    if i < k {
        assert(s.subrange(i, i + part.len()) != part);
        found_at(s, part, i + 1, k);
    }
}

/// A text that stands nowhere in another one is not found.
pub proof fn what_is_not_there_is_not_found(s: Seq<char>, part: Seq<char>)
    requires
        forall|j: int| 0 <= j && j + part.len() <= s.len() ==> #[trigger] s.subrange(j, j + part.len()) != part,
    ensures
        found(s, part) is None,
{
    not_found_from(s, part, 0);
}

proof fn not_found_from(s: Seq<char>, part: Seq<char>, i: int)
    requires
        0 <= i,
        forall|j: int| 0 <= j && j + part.len() <= s.len() ==> #[trigger] s.subrange(j, j + part.len()) != part,
    ensures
        found_from(s, part, i) is None,
    decreases s.len() - i + 1,
{
    if i <= s.len() {
        if i + part.len() <= s.len() {
            assert(s.subrange(i, i + part.len()) != part);
        }
        not_found_from(s, part, i + 1);
    }
}

/// A trimmed text is the part of the text between its first and its last character that is not white
/// space; a text of white space alone has none.
pub proof fn trimming_takes_the_white_space_around(s: Seq<char>, a: int, b: int)
    ensures
        0 <= a < b <= s.len() && !is_white(s[a]) && !is_white(s[b - 1]) && (forall|i: int|
            0 <= i < a ==> is_white(#[trigger] s[i])) && (forall|i: int| b <= i < s.len() ==> is_white(#[trigger] s[i]))
            ==> trimmed(s) == s.subrange(a, b),
        (forall|i: int| 0 <= i < s.len() ==> is_white(#[trigger] s[i])) <==> trimmed(s).len() == 0,
{
    if 0 <= a < b <= s.len() && !is_white(s[a]) && !is_white(s[b - 1]) && (forall|i: int|
        0 <= i < a ==> is_white(#[trigger] s[i])) && (forall|i: int| b <= i < s.len() ==> is_white(#[trigger] s[i])) {
        leading_goes(s, a);
        let rest = s.skip(a);
        trailing_goes(rest, b - a);
        assert(rest.take(b - a) =~= s.subrange(a, b));
    }
    if forall|i: int| 0 <= i < s.len() ==> is_white(#[trigger] s[i]) {
        all_leading_goes(s);
    } else {
        let k = choose|k: int| 0 <= k < s.len() && !is_white(#[trigger] s[k]);
        leading_keeps(s, k);
        let rest = without_leading_white(s);
        let m = choose|m: int| 0 <= m < rest.len() && !is_white(#[trigger] rest[m]);
        trailing_keeps(rest, m);
    }
}

proof fn leading_goes(s: Seq<char>, a: int)
    requires
        0 <= a < s.len(),
        !is_white(s[a]),
        forall|i: int| 0 <= i < a ==> is_white(#[trigger] s[i]),
    ensures
        without_leading_white(s) == s.skip(a),
    decreases a,
{
    if a > 0 {
        assert(is_white(s[0]));
        let t = s.skip(1);
        assert forall|i: int| 0 <= i < a - 1 implies is_white(#[trigger] t[i]) by {
            assert(is_white(s[i + 1]));
        }
        leading_goes(t, a - 1);
        assert(t.skip(a - 1) =~= s.skip(a));
    } else {
        assert(s.skip(0) =~= s);
    }
}

proof fn trailing_goes(s: Seq<char>, b: int)
    requires
        0 < b <= s.len(),
        !is_white(s[b - 1]),
        forall|i: int| b <= i < s.len() ==> is_white(#[trigger] s[i]),
    ensures
        without_trailing_white(s) == s.take(b),
    decreases s.len() - b,
{
    if b < s.len() {
        assert(is_white(s[s.len() - 1]));
        let t = s.drop_last();
        assert forall|i: int| b <= i < t.len() implies is_white(#[trigger] t[i]) by {
            assert(is_white(s[i]));
        }
        trailing_goes(t, b);
        assert(t.take(b) =~= s.take(b));
    } else {
        assert(s.take(b) =~= s);
    }
}

proof fn all_leading_goes(s: Seq<char>)
    requires
        forall|i: int| 0 <= i < s.len() ==> is_white(#[trigger] s[i]),
    ensures
        without_leading_white(s).len() == 0,
    decreases s.len(),
{
    if s.len() > 0 {
        assert(is_white(s[0]));
        let t = s.skip(1);
        assert forall|i: int| 0 <= i < t.len() implies is_white(#[trigger] t[i]) by {
            assert(is_white(s[i + 1]));
        }
        all_leading_goes(t);
    }
}

proof fn leading_keeps(s: Seq<char>, k: int)
    requires
        0 <= k < s.len(),
        !is_white(s[k]),
    ensures
        exists|m: int| 0 <= m < without_leading_white(s).len() && !is_white(#[trigger] without_leading_white(s)[m]),
    decreases s.len(),
{
    if is_white(s[0]) {
        assert(s.skip(1)[k - 1] == s[k]);
        leading_keeps(s.skip(1), k - 1);
        let rest = without_leading_white(s.skip(1));
        let m = choose|m: int| 0 <= m < rest.len() && !is_white(#[trigger] rest[m]);
        assert(!is_white(without_leading_white(s)[m]));
    } else {
        assert(!is_white(without_leading_white(s)[k]));
    }
}

proof fn trailing_keeps(s: Seq<char>, k: int)
    requires
        0 <= k < s.len(),
        !is_white(s[k]),
    ensures
        without_trailing_white(s).len() > 0,
    decreases s.len(),
{
    if is_white(s.last()) {
        assert(s.drop_last()[k] == s[k]);
        trailing_keeps(s.drop_last(), k);
    }
}

/// A path loses the slashes at its end, all of them and nothing else.
pub proof fn a_path_loses_the_slashes_at_its_end(s: Seq<char>, b: int)
    requires
        0 <= b <= s.len(),
        b > 0 ==> s[b - 1] != '/',
        forall|i: int| b <= i < s.len() ==> #[trigger] s[i] == '/',
    ensures
        without_trailing_slashes(s) == s.take(b),
    decreases s.len(),
{
    if b < s.len() {
        assert(s[s.len() - 1] == '/');
        let t = s.drop_last();
        assert forall|i: int| b <= i < t.len() implies #[trigger] t[i] == '/' by {
            assert(s[i] == '/');
        }
        a_path_loses_the_slashes_at_its_end(t, b);
        assert(t.take(b) =~= s.take(b));
    } else {
        assert(s.take(b) =~= s);
    }
}

/// Of two texts the one stands before the other that has the smaller character where they first differ,
/// or that ends there.
pub proof fn texts_are_compared_where_they_first_differ(a: Seq<char>, b: Seq<char>, k: int)
    requires
        0 <= k <= a.len(),
        k <= b.len(),
        a.take(k) == b.take(k),
        k == a.len() || k == b.len() || a[k] != b[k],
    ensures
        text_before(a, b) <==> k < b.len() && (k == a.len() || (a[k] as int) < (b[k] as int)),
    decreases k,
{
    if k > 0 {
        assert(a[0] == a.take(k)[0] && b[0] == b.take(k)[0]);
        let (x, y) = (a.skip(1), b.skip(1));
        assert(x.take(k - 1) =~= a.take(k).skip(1));
        assert(y.take(k - 1) =~= b.take(k).skip(1));
        texts_are_compared_where_they_first_differ(x, y, k - 1);
    }
}

/// A number is written in decimal: read digit by digit it is that number, and a negative one begins with
/// a minus.
pub proof fn a_number_is_written_in_decimal(n: nat)
    ensures
        n < 10 ==> digits(n) == seq![('0' as int + n) as char],
        n >= 10 ==> digits(n) == digits(n / 10).push(('0' as int + n % 10) as char),
        digits(n).len() > 0,
        decimal(n as int) == digits(n),
        n > 0 ==> decimal(-(n as int)) == seq!['-'] + digits(n),
{
}

proof fn digits_are_read_back(n: nat)
    ensures
        digits_value(digits(n)) == Some(n),
        '0' <= digits(n)[0] <= '9',
    decreases n,
{
    digits_are_there(n);
    if n >= 10 {
        digits_are_read_back(n / 10);
        digits_are_there(n / 10);
        assert(digits(n).drop_last() =~= digits(n / 10));
        assert(digits(n)[0] == digits(n / 10)[0]);
    } else {
        assert(digits(n).drop_last() =~= Seq::<char>::empty());
        assert(digits_value(digits(n).drop_last()) == Some(0nat));
    }
}

proof fn one_stranger_is_enough(s: Seq<char>, k: int)
    requires
        0 <= k < s.len(),
        !('0' <= s[k] <= '9'),
    ensures
        digits_value(s) is None,
    decreases s.len(),
{
    if k < s.len() - 1 {
        one_stranger_is_enough(s.drop_last(), k);
    }
}

/// A number that was written is read back as itself, with or without a plus in front of one that is not
/// negative.
pub proof fn a_written_number_is_read_back(n: i64)
    ensures
        integer_64(decimal(n as int)) == Some(n),
        n >= 0 ==> integer_64(seq!['+'] + decimal(n as int)) == Some(n),
{
    let m: nat = if n < 0 {
        (-(n as int)) as nat
    } else {
        n as nat
    };
    digits_are_there(m);
    digits_are_read_back(m);
    let s = decimal(n as int);
    if n < 0 {
        assert(s.skip(1) =~= digits(m));
    } else {
        assert((seq!['+'] + s).skip(1) =~= digits(m));
    }
}

/// A text with anything but digits behind its first character is no number, and neither is one that begins
/// with anything but a digit or a sign, has a sign alone, or nothing at all.
pub proof fn what_is_no_number(s: Seq<char>, k: int)
    ensures
        s.len() == 0 ==> integer_64(s) is None,
        s.len() == 1 && (s[0] == '-' || s[0] == '+') ==> integer_64(s) is None,
        s.len() > 0 && s[0] != '-' && s[0] != '+' && !('0' <= s[0] <= '9') ==> integer_64(s) is None,
        0 < k < s.len() && !('0' <= s[k] <= '9') ==> integer_64(s) is None,
{
    if s.len() > 0 && s[0] != '-' && s[0] != '+' && !('0' <= s[0] <= '9') {
        one_stranger_is_enough(s, 0);
    }
    if 0 < k < s.len() && !('0' <= s[k] <= '9') {
        one_stranger_is_enough(s, k);
        assert(s.skip(1)[k - 1] == s[k]);
        one_stranger_is_enough(s.skip(1), k - 1);
    }
}

} // verus!

//! Text as sequences of characters: comparison, search, splitting, and the
//! decimal notation the daemon prints and reads.

use vstd::prelude::*;
use vstd::string::*;

verus! {

/// The characters of `s`, in order.
pub fn chars_of(s: &str) -> (v: Vec<char>)
    ensures
        v@ == s@,
{
    let mut v: Vec<char> = Vec::new();
    for c in it: s.chars()
        invariant
            it.seq() == s@,
            v@ == s@.take(it.index() as int),
    {
        proof {
            assert(s@.take(it.index() + 1) =~= s@.take(it.index() as int).push(s@[it.index() as int]));
        }
        v.push(c);
    }
    proof {
        assert(s@.take(s@.len() as int) =~= s@);
    }
    v
}

/// Whether two texts hold the same characters.
pub fn same(a: &str, b: &str) -> (r: bool)
    ensures
        r == (a@ == b@),
{
    a.to_owned() == b.to_owned()
}

/// Whether `name` is one of `list`.
pub open spec fn listed(list: Seq<&str>, name: Seq<char>) -> bool {
    exists|i: int| 0 <= i < list.len() && (#[trigger] list[i])@ == name
}

/// Whether `name` is one of `list`.
pub fn is_listed(list: &[&str], name: &str) -> (r: bool)
    ensures
        r == listed(list@, name@),
{
    for i in 0..list.len()
        invariant
            forall|j: int| 0 <= j < i ==> (#[trigger] list@[j])@ != name@,
    {
        if same(list[i], name) {
            return true;
        }
    }
    false
}

/// Whether `s` begins with `prefix`.
pub fn starts_with(s: &str, prefix: &str) -> (r: bool)
    ensures
        r == prefix@.is_prefix_of(s@),
{
    let n: usize = s.unicode_len();
    let m: usize = prefix.unicode_len();
    m <= n && same(s.substring_char(0, m), prefix)
}

/// Whether `part` stands at position `i` of `s`.
pub open spec fn found_at(s: Seq<char>, part: Seq<char>, i: int) -> bool {
    0 <= i <= s.len() - part.len() && s.subrange(i, i + part.len()) == part
}

/// Whether `part` stands anywhere in `s`.
pub open spec fn occurs(s: Seq<char>, part: Seq<char>) -> bool {
    exists|i: int| found_at(s, part, i)
}

/// Whether `part` stands anywhere in `s`.
pub fn contains(s: &str, part: &str) -> (r: bool)
    ensures
        r == occurs(s@, part@),
{
    let n: usize = s.unicode_len();
    let m: usize = part.unicode_len();
    if m > n {
        return false;
    }
    let mut i: usize = 0;
    while i <= n - m
        invariant
            n == s@.len(),
            m == part@.len(),
            m <= n,
            i <= n - m + 1,
            forall|j: int| 0 <= j < i ==> !found_at(s@, part@, j),
        decreases n - m + 1 - i,
    {
        if same(s.substring_char(i, i + m), part) {
            assert(found_at(s@, part@, i as int));
            return true;
        }
        if i == n - m {
            assert(forall|j: int| !found_at(s@, part@, j));
            return false;
        }
        i += 1;
    }
    false
}

/// How often `part` stands in `s`, counted from the left without overlap.
pub open spec fn occurrences(s: Seq<char>, part: Seq<char>) -> nat
    decreases s.len(),
{
    if part.len() == 0 || s.len() < part.len() {
        0
    } else if s.take(part.len() as int) == part {
        1 + occurrences(s.skip(part.len() as int), part)
    } else {
        occurrences(s.skip(1), part)
    }
}

/// How often `part` stands in `s`, counted from the left without overlap.
pub fn count(s: &str, part: &str) -> (r: usize)
    requires
        part@.len() > 0,
    ensures
        r == occurrences(s@, part@),
        r <= s@.len(),
{
    let n: usize = s.unicode_len();
    let m: usize = part.unicode_len();
    let mut i: usize = 0;
    let mut r: usize = 0;
    proof {
        assert(s@.skip(0) =~= s@);
    }
    while n - i >= m
        invariant
            n == s@.len(),
            m == part@.len(),
            m > 0,
            i <= n,
            r <= i,
            occurrences(s@, part@) == r + occurrences(s@.skip(i as int), part@),
        decreases n - i,
    {
        proof {
            let rest = s@.skip(i as int);
            assert(rest.take(m as int) =~= s@.subrange(i as int, i + m));
            assert(rest.skip(m as int) =~= s@.skip(i + m));
            assert(rest.skip(1) =~= s@.skip(i + 1));
        }
        if same(s.substring_char(i, i + m), part) {
            r += 1;
            i += m;
        } else {
            i += 1;
        }
    }
    r
}

/// Whether `c` stands in `s`.
pub fn has_char(s: &str, c: char) -> (r: bool)
    ensures
        r == s@.contains(c),
{
    let chars = chars_of(s);
    for i in 0..chars.len()
        invariant
            chars@ == s@,
            forall|j: int| 0 <= j < i ==> s@[j] != c,
    {
        if chars[i] == c {
            return true;
        }
    }
    false
}

/// Position of the first `c` in `s`, or the length of `s` without one.
pub open spec fn first_position(s: Seq<char>, c: char) -> nat
    decreases s.len(),
{
    if s.len() == 0 || s[0] == c {
        0
    } else {
        1 + first_position(s.skip(1), c)
    }
}

pub proof fn lemma_first_position(s: Seq<char>, c: char, i: int)
    requires
        0 <= i <= s.len(),
        forall|j: int| 0 <= j < i ==> s[j] != c,
        i < s.len() ==> s[i] == c,
    ensures
        first_position(s, c) == i,
    decreases s.len(),
{
    if i > 0 {
        lemma_first_position(s.skip(1), c, i - 1);
    }
}

/// What stands before and after the first `c` in `s`.
pub open spec fn split_once_at(s: Seq<char>, c: char) -> Option<(Seq<char>, Seq<char>)> {
    let i = first_position(s, c) as int;
    if i < s.len() {
        Some((s.take(i), s.skip(i + 1)))
    } else {
        None
    }
}

/// What stands before and after the first `c` in `s`.
pub fn split_once<'a>(s: &'a str, c: char) -> (r: Option<(&'a str, &'a str)>)
    ensures
        match r {
            Some(p) => split_once_at(s@, c) == Some((p.0@, p.1@)),
            None => split_once_at(s@, c) is None,
        },
{
    let chars = chars_of(s);
    let n: usize = chars.len();
    let mut i: usize = 0;
    while i < n && chars[i] != c
        invariant
            chars@ == s@,
            n == s@.len(),
            i <= n,
            forall|j: int| 0 <= j < i ==> s@[j] != c,
        decreases n - i,
    {
        i += 1;
    }
    proof {
        lemma_first_position(s@, c, i as int);
    }
    if i < n {
        let head = s.substring_char(0, i);
        let tail = s.substring_char(i + 1, n);
        proof {
            assert(head@ =~= s@.take(i as int));
            assert(tail@ =~= s@.skip(i + 1));
        }
        Some((head, tail))
    } else {
        None
    }
}

/// Position behind the last `c` in `s`, or zero without one.
pub open spec fn behind_last(s: Seq<char>, c: char) -> nat
    decreases s.len(),
{
    if s.len() == 0 {
        0
    } else if s.last() == c {
        s.len()
    } else {
        behind_last(s.drop_last(), c)
    }
}

proof fn lemma_behind_last(s: Seq<char>, c: char, i: int)
    requires
        0 <= i <= s.len(),
        forall|j: int| i <= j < s.len() ==> s[j] != c,
        i > 0 ==> s[i - 1] == c,
    ensures
        behind_last(s, c) == i,
    decreases s.len(),
{
    if i < s.len() {
        lemma_behind_last(s.drop_last(), c, i);
    }
}

/// What stands before and after the last `c` in `s`.
pub open spec fn rsplit_once_at(s: Seq<char>, c: char) -> Option<(Seq<char>, Seq<char>)> {
    let i = behind_last(s, c) as int;
    if i > 0 {
        Some((s.take(i - 1), s.skip(i)))
    } else {
        None
    }
}

/// What stands before and after the last `c` in `s`.
pub fn rsplit_once<'a>(s: &'a str, c: char) -> (r: Option<(&'a str, &'a str)>)
    ensures
        match r {
            Some(p) => rsplit_once_at(s@, c) == Some((p.0@, p.1@)),
            None => rsplit_once_at(s@, c) is None,
        },
{
    let chars = chars_of(s);
    let n: usize = chars.len();
    let mut i: usize = n;
    while i > 0 && chars[i - 1] != c
        invariant
            chars@ == s@,
            n == s@.len(),
            i <= n,
            forall|j: int| i <= j < n ==> s@[j] != c,
        decreases i,
    {
        i -= 1;
    }
    proof {
        lemma_behind_last(s@, c, i as int);
    }
    if i > 0 {
        let head = s.substring_char(0, i - 1);
        let tail = s.substring_char(i, n);
        proof {
            assert(head@ =~= s@.take(i - 1));
            assert(tail@ =~= s@.skip(i as int));
        }
        Some((head, tail))
    } else {
        None
    }
}

/// Characters with the Unicode property `White_Space`.
pub open spec fn is_space(c: char) -> bool {
    ||| 0x09 <= c as u32 <= 0x0d
    ||| c as u32 == 0x20
    ||| c as u32 == 0x85
    ||| c as u32 == 0xa0
    ||| c as u32 == 0x1680
    ||| 0x2000 <= c as u32 <= 0x200a
    ||| c as u32 == 0x2028
    ||| c as u32 == 0x2029
    ||| c as u32 == 0x202f
    ||| c as u32 == 0x205f
    ||| c as u32 == 0x3000
}

fn space(c: char) -> (r: bool)
    ensures
        r == is_space(c),
{
    let n: u32 = c as u32;
    (0x09 <= n && n <= 0x0d) || n == 0x20 || n == 0x85 || n == 0xa0 || n == 0x1680 || (0x2000 <= n
        && n <= 0x200a) || n == 0x2028 || n == 0x2029 || n == 0x202f || n == 0x205f || n == 0x3000
}

/// Whether nothing is left of `s` once surrounding white space is removed.
pub open spec fn is_blank(s: Seq<char>) -> bool {
    forall|i: int| 0 <= i < s.len() ==> is_space(#[trigger] s[i])
}

/// Whether nothing is left of `s` once surrounding white space is removed.
pub fn blank(s: &str) -> (r: bool)
    ensures
        r == is_blank(s@),
{
    let chars = chars_of(s);
    for i in 0..chars.len()
        invariant
            chars@ == s@,
            forall|j: int| 0 <= j < i ==> is_space(#[trigger] s@[j]),
    {
        if !space(chars[i]) {
            assert(!is_space(s@[i as int]));
            return false;
        }
    }
    true
}

/// `s` without the white space it begins with.
pub open spec fn trimmed_start(s: Seq<char>) -> Seq<char>
    decreases s.len(),
{
    if s.len() > 0 && is_space(s[0]) {
        trimmed_start(s.skip(1))
    } else {
        s
    }
}

/// `s` without the white space it ends with.
pub open spec fn trimmed_end(s: Seq<char>) -> Seq<char>
    decreases s.len(),
{
    if s.len() > 0 && is_space(s.last()) {
        trimmed_end(s.drop_last())
    } else {
        s
    }
}

/// `s` without the white space around it.
pub open spec fn trimmed(s: Seq<char>) -> Seq<char> {
    trimmed_end(trimmed_start(s))
}

/// `s` without the white space around it.
pub fn trim<'a>(s: &'a str) -> (r: &'a str)
    ensures
        r@ == trimmed(s@),
{
    let chars = chars_of(s);
    let n: usize = chars.len();
    let mut i: usize = 0;
    proof {
        assert(s@.skip(0) =~= s@);
    }
    while i < n && space(chars[i])
        invariant
            chars@ == s@,
            n == s@.len(),
            i <= n,
            trimmed_start(s@) == trimmed_start(s@.skip(i as int)),
        decreases n - i,
    {
        proof {
            assert(s@.skip(i as int).skip(1) =~= s@.skip(i + 1));
        }
        i += 1;
    }
    let mut j: usize = n;
    proof {
        assert(trimmed_start(s@.skip(i as int)) == s@.skip(i as int));
        assert(s@.subrange(i as int, j as int) =~= s@.skip(i as int));
    }
    while j > i && space(chars[j - 1])
        invariant
            chars@ == s@,
            n == s@.len(),
            i <= j <= n,
            trimmed(s@) == trimmed_end(s@.subrange(i as int, j as int)),
        decreases j,
    {
        proof {
            assert(s@.subrange(i as int, j as int).drop_last() =~= s@.subrange(i as int, j - 1));
        }
        j -= 1;
    }
    s.substring_char(i, j)
}

/// The decimal digit `d`.
pub open spec fn digit(d: int) -> char {
    if d == 0 {
        '0'
    } else if d == 1 {
        '1'
    } else if d == 2 {
        '2'
    } else if d == 3 {
        '3'
    } else if d == 4 {
        '4'
    } else if d == 5 {
        '5'
    } else if d == 6 {
        '6'
    } else if d == 7 {
        '7'
    } else if d == 8 {
        '8'
    } else {
        '9'
    }
}

fn digit_text(d: u64) -> (r: &'static str)
    requires
        d < 10,
    ensures
        r@ == seq![digit(d as int)],
{
    proof {
        reveal_strlit("0");
        reveal_strlit("1");
        reveal_strlit("2");
        reveal_strlit("3");
        reveal_strlit("4");
        reveal_strlit("5");
        reveal_strlit("6");
        reveal_strlit("7");
        reveal_strlit("8");
        reveal_strlit("9");
    }
    if d == 0 {
        "0"
    } else if d == 1 {
        "1"
    } else if d == 2 {
        "2"
    } else if d == 3 {
        "3"
    } else if d == 4 {
        "4"
    } else if d == 5 {
        "5"
    } else if d == 6 {
        "6"
    } else if d == 7 {
        "7"
    } else if d == 8 {
        "8"
    } else {
        "9"
    }
}

/// Decimal notation of `n`, without leading zeros.
pub open spec fn digits(n: nat) -> Seq<char>
    decreases n,
{
    if n < 10 {
        seq![digit(n as int)]
    } else {
        digits(n / 10) + seq![digit((n % 10) as int)]
    }
}

/// Decimal notation of `n`, without leading zeros.
pub fn decimal(n: u64) -> (r: String)
    ensures
        r@ == digits(n as nat),
    decreases n,
{
    if n < 10 {
        digit_text(n).to_owned()
    } else {
        decimal(n / 10).concat(digit_text(n % 10))
    }
}

/// Value of a decimal digit.
pub open spec fn digit_value(c: char) -> Option<nat> {
    if '0' <= c <= '9' {
        Some((c as u32 - '0' as u32) as nat)
    } else {
        None
    }
}

/// Value of a run of decimal digits; an empty run is zero.
pub open spec fn run_value(s: Seq<char>) -> Option<nat>
    decreases s.len(),
{
    if s.len() == 0 {
        Some(0)
    } else {
        match (run_value(s.drop_last()), digit_value(s.last())) {
            (Some(head), Some(d)) => Some(head * 10 + d),
            _ => None,
        }
    }
}

/// The number a text stands for: one or more decimal digits behind an
/// optional plus sign, no larger than a `u32` can hold.
pub open spec fn number(s: Seq<char>) -> Option<u32> {
    let body = if s.len() > 0 && s[0] == '+' {
        s.skip(1)
    } else {
        s
    };
    match run_value(body) {
        Some(n) => if body.len() > 0 && n <= u32::MAX {
            Some(n as u32)
        } else {
            None
        },
        None => None,
    }
}

proof fn lemma_run_value_grows(s: Seq<char>, i: int)
    requires
        0 <= i <= s.len(),
    ensures
        run_value(s.take(i)) is None ==> run_value(s) is None,
        run_value(s) is Some ==> run_value(s.take(i)) is Some && run_value(s.take(i))->0
            <= run_value(s)->0,
    decreases s.len() - i,
{
    if i == s.len() {
        assert(s.take(i) =~= s);
    } else {
        lemma_run_value_grows(s, i + 1);
        assert(s.take(i + 1).drop_last() =~= s.take(i));
    }
}

/// Decimal notation is digits only, and stands for the number it is of.
pub proof fn lemma_digits_read(n: nat)
    ensures
        digits(n).len() > 0,
        run_value(digits(n)) == Some(n),
        forall|i: int| 0 <= i < digits(n).len() ==> '0' <= #[trigger] digits(n)[i] <= '9',
    decreases n,
{
    let head = digits(n).drop_last();
    if n >= 10 {
        lemma_digits_read(n / 10);
        assert(head =~= digits(n / 10));
    } else {
        assert(head =~= Seq::empty());
        assert(run_value(head) == Some(0nat));
    }
}

/// The number a text stands for: one or more decimal digits behind an
/// optional plus sign, no larger than a `u32` can hold.
pub fn parse_u32(s: &str) -> (r: Option<u32>)
    ensures
        r == number(s@),
{
    let chars = chars_of(s);
    let n: usize = chars.len();
    let start: usize = if n > 0 && chars[0] == '+' {
        1
    } else {
        0
    };
    let ghost body = s@.skip(start as int);
    proof {
        assert(s@.skip(0) =~= s@);
    }
    if start == n {
        return None;
    }
    let mut i: usize = start;
    let mut value: u64 = 0;
    while i < n
        invariant
            chars@ == s@,
            n == s@.len(),
            start <= i <= n,
            start < n,
            body == s@.skip(start as int),
            body.len() == n - start,
            value <= u32::MAX,
            run_value(body.take(i - start)) == Some(value as nat),
            number(s@) == (match run_value(body) {
                Some(n) => if body.len() > 0 && n <= u32::MAX {
                    Some(n as u32)
                } else {
                    None
                },
                None => None,
            }),
        decreases n - i,
    {
        let c = chars[i];
        proof {
            lemma_run_value_grows(body, i - start + 1);
            assert(body.take(i - start + 1).drop_last() =~= body.take(i - start));
            assert(body.take(i - start + 1).last() == c);
        }
        if !('0' <= c && c <= '9') {
            return None;
        }
        value = value * 10 + (c as u32 - '0' as u32) as u64;
        if value > u32::MAX as u64 {
            return None;
        }
        i += 1;
    }
    proof {
        assert(body.take(n - start) =~= body);
    }
    Some(value as u32)
}

/// `c` with an ASCII upper-case letter replaced by its lower-case form.
pub open spec fn lower(c: char) -> char {
    if 'A' <= c <= 'Z' {
        (c as u32 + 32) as char
    } else {
        c
    }
}

/// Equality of texts up to the case of ASCII letters.
pub open spec fn alike(a: Seq<char>, b: Seq<char>) -> bool {
    a.len() == b.len() && forall|i: int| 0 <= i < a.len() ==> lower(#[trigger] a[i]) == lower(b[i])
}

fn lower_code(c: char) -> (r: u32)
    ensures
        r == lower(c) as u32,
{
    if 'A' <= c && c <= 'Z' {
        c as u32 + 32
    } else {
        c as u32
    }
}

/// Equality of texts up to the case of ASCII letters.
pub fn same_ignoring_case(a: &str, b: &str) -> (r: bool)
    ensures
        r == alike(a@, b@),
{
    let x = chars_of(a);
    let y = chars_of(b);
    if x.len() != y.len() {
        return false;
    }
    for i in 0..x.len()
        invariant
            x@ == a@,
            y@ == b@,
            x@.len() == y@.len(),
            forall|j: int| 0 <= j < i ==> lower(#[trigger] a@[j]) == lower(b@[j]),
    {
        if lower_code(x[i]) != lower_code(y[i]) {
            assert(lower(a@[i as int]) != lower(b@[i as int]));
            return false;
        }
    }
    true
}

/// Strict dictionary order of texts by code point.
pub open spec fn precedes(a: Seq<char>, b: Seq<char>) -> bool
    decreases a.len(),
{
    if b.len() == 0 {
        false
    } else if a.len() == 0 {
        true
    } else if a[0] == b[0] {
        precedes(a.skip(1), b.skip(1))
    } else {
        a[0] < b[0]
    }
}

/// Dictionary order never places a text before itself.
pub proof fn lemma_precedes_irreflexive(a: Seq<char>)
    ensures
        !precedes(a, a),
    decreases a.len(),
{
    if a.len() > 0 {
        lemma_precedes_irreflexive(a.skip(1));
    }
}

/// Dictionary order is transitive.
pub proof fn lemma_precedes_transitive(a: Seq<char>, b: Seq<char>, c: Seq<char>)
    requires
        precedes(a, b),
        precedes(b, c),
    ensures
        precedes(a, c),
    decreases a.len(),
{
    if a.len() > 0 && a[0] == b[0] && b[0] == c[0] {
        lemma_precedes_transitive(a.skip(1), b.skip(1), c.skip(1));
    }
}

/// Of two texts that neither precedes the other, both are the same.
pub proof fn lemma_precedes_total(a: Seq<char>, b: Seq<char>)
    ensures
        precedes(a, b) || precedes(b, a) || a == b,
    decreases a.len(),
{
    if a.len() > 0 && b.len() > 0 && a[0] == b[0] {
        lemma_precedes_total(a.skip(1), b.skip(1));
        if a.skip(1) == b.skip(1) {
            assert forall|i: int| 0 <= i < a.len() implies a[i] == b[i] by {
                if i > 0 {
                    assert(a.skip(1)[i - 1] == b.skip(1)[i - 1]);
                }
            }
            assert(a =~= b);
        }
    } else if a.len() == 0 && b.len() == 0 {
        assert(a =~= b);
    }
}

/// Strict dictionary order of texts by code point.
pub fn before(a: &str, b: &str) -> (r: bool)
    ensures
        r == precedes(a@, b@),
{
    let x = chars_of(a);
    let y = chars_of(b);
    let mut i: usize = 0;
    proof {
        assert(a@.skip(0) =~= a@);
        assert(b@.skip(0) =~= b@);
    }
    while i < x.len() && i < y.len() && x[i] == y[i]
        invariant
            x@ == a@,
            y@ == b@,
            i <= x.len(),
            i <= y.len(),
            precedes(a@, b@) == precedes(a@.skip(i as int), b@.skip(i as int)),
        decreases x.len() - i,
    {
        proof {
            assert(a@.skip(i as int).skip(1) =~= a@.skip(i + 1));
            assert(b@.skip(i as int).skip(1) =~= b@.skip(i + 1));
        }
        i += 1;
    }
    if i == y.len() {
        false
    } else if i == x.len() {
        true
    } else {
        x[i] < y[i]
    }
}

/// The entries of `list` with `gap` between each two.
pub open spec fn joined(list: Seq<&str>, gap: Seq<char>) -> Seq<char>
    decreases list.len(),
{
    if list.len() == 0 {
        Seq::empty()
    } else if list.len() == 1 {
        list[0]@
    } else {
        joined(list.drop_last(), gap) + gap + list.last()@
    }
}

/// The entries of `list` with `gap` between each two.
pub fn join(list: &[&str], gap: &str) -> (r: String)
    ensures
        r@ == joined(list@, gap@),
{
    let mut r: String = String::new();
    assert(r@ =~= joined(list@.take(0), gap@));
    for i in 0..list.len()
        invariant
            r@ == joined(list@.take(i as int), gap@),
    {
        proof {
            assert(list@.take(i + 1).drop_last() =~= list@.take(i as int));
            assert(list@.take(i + 1).last() == list@[i as int]);
            assert(list@.take(i + 1)[0] == list@[0]);
        }
        if i > 0 {
            r.append(gap);
        } else {
            assert(r@ + list@[0]@ =~= list@[0]@);
        }
        r.append(list[i]);
    }
    assert(list@.take(list@.len() as int) =~= list@);
    r
}

/// A part of a text is a part of it with anything before or behind it.
pub proof fn lemma_occurs_beside(s: Seq<char>, other: Seq<char>, part: Seq<char>)
    requires
        occurs(s, part),
    ensures
        occurs(s + other, part),
        occurs(other + s, part),
{
    let i = choose|i: int| found_at(s, part, i);
    let n = i + part.len();
    assert((s + other).subrange(i, n) =~= s.subrange(i, n));
    assert(found_at(s + other, part, i));
    let k = other.len();
    assert((other + s).subrange(k + i, k + n) =~= s.subrange(i, n));
    assert(found_at(other + s, part, k + i));
}

/// Every text is part of itself.
pub proof fn lemma_occurs_self(s: Seq<char>)
    ensures
        occurs(s, s),
{
    assert(s.subrange(0, s.len() as int) =~= s);
    assert(found_at(s, s, 0));
}

/// Every entry of a list is part of the joined text.
pub proof fn lemma_joined_holds(list: Seq<&str>, gap: Seq<char>, i: int)
    requires
        0 <= i < list.len(),
    ensures
        occurs(joined(list, gap), list[i]@),
    decreases list.len(),
{
    lemma_occurs_self(list[i]@);
    if list.len() > 1 {
        let head = joined(list.drop_last(), gap);
        if i < list.len() - 1 {
            lemma_joined_holds(list.drop_last(), gap, i);
            lemma_occurs_beside(head, gap, list[i]@);
            lemma_occurs_beside(head + gap, list.last()@, list[i]@);
        } else {
            lemma_occurs_beside(list.last()@, head + gap, list[i]@);
        }
    }
}

proof fn lemma_found_behind(s: Seq<char>, part: Seq<char>, cut: int, i: int)
    requires
        0 <= cut <= s.len(),
        0 <= i,
    ensures
        found_at(s.skip(cut), part, i) <==> found_at(s, part, i + cut),
{
    let rest = s.skip(cut);
    if i <= rest.len() - part.len() {
        assert(rest.subrange(i, i + part.len()) =~= s.subrange(i + cut, i + cut + part.len()));
    }
}

proof fn lemma_count_found(s: Seq<char>, part: Seq<char>)
    requires
        part.len() > 0,
    ensures
        occurrences(s, part) == 0 <==> !occurs(s, part),
        occurrences(s, part) >= 2 <==> exists|i: int, j: int|
            #[trigger] found_at(s, part, i) && #[trigger] found_at(s, part, j) && i + part.len()
                <= j,
    decreases s.len(),
{
    let m = part.len() as int;
    if s.len() >= m {
        let here = found_at(s, part, 0);
        assert(s.take(m) =~= s.subrange(0, m));
        assert(here <==> s.take(m) == part);
        let cut = if here {
            m
        } else {
            1
        };
        let rest = s.skip(cut);
        lemma_count_found(rest, part);
        if occurs(rest, part) {
            let i = choose|i: int| found_at(rest, part, i);
            lemma_found_behind(s, part, cut, i);
            assert(found_at(s, part, i + cut));
            if here {
                assert(found_at(s, part, 0) && found_at(s, part, i + cut));
            }
        }
        if occurs(s, part) && !here {
            let i = choose|i: int| found_at(s, part, i);
            lemma_found_behind(s, part, 1, i - 1);
            assert(found_at(rest, part, i - 1));
        }
        if !here && occurrences(s, part) >= 2 {
            let (i, j) = choose|i: int, j: int|
                #[trigger] found_at(rest, part, i) && #[trigger] found_at(rest, part, j) && i + m
                    <= j;
            lemma_found_behind(s, part, 1, i);
            lemma_found_behind(s, part, 1, j);
            assert(found_at(s, part, i + 1) && found_at(s, part, j + 1));
        }
        if exists|i: int, j: int|
            #[trigger] found_at(s, part, i) && #[trigger] found_at(s, part, j) && i + m <= j {
            let (i, j) = choose|i: int, j: int|
                #[trigger] found_at(s, part, i) && #[trigger] found_at(s, part, j) && i + m <= j;
            lemma_found_behind(s, part, cut, j - cut);
            assert(found_at(rest, part, j - cut));
            if !here {
                lemma_found_behind(s, part, cut, i - cut);
                assert(found_at(rest, part, i - cut));
            }
        }
    }
}

/// A part that is counted stands somewhere, and one that is not stands
/// nowhere. One is counted more than once exactly where it stands in two
/// places that do not overlap.
pub proof fn lemma_occurrences(s: Seq<char>, part: Seq<char>)
    requires
        part.len() > 0,
    ensures
        occurrences(s, part) == 0 <==> forall|i: int|
            0 <= i <= s.len() - part.len() ==> #[trigger] s.subrange(i, i + part.len()) != part,
        occurrences(s, part) >= 2 <==> exists|i: int, j: int|
            0 <= i && i + part.len() <= j <= s.len() - part.len() && #[trigger] s.subrange(
                i,
                i + part.len(),
            ) == part && #[trigger] s.subrange(j, j + part.len()) == part,
{
    lemma_count_found(s, part);
    if !occurs(s, part) {
        assert forall|i: int| 0 <= i <= s.len() - part.len() implies #[trigger] s.subrange(
            i,
            i + part.len(),
        ) != part by {
            assert(!found_at(s, part, i));
        }
    } else {
        let i = choose|i: int| found_at(s, part, i);
        assert(s.subrange(i, i + part.len()) == part);
    }
    if occurrences(s, part) >= 2 {
        let (i, j) = choose|i: int, j: int|
            #[trigger] found_at(s, part, i) && #[trigger] found_at(s, part, j) && i + part.len()
                <= j;
        assert(s.subrange(i, i + part.len()) == part && s.subrange(j, j + part.len()) == part);
    }
    if exists|i: int, j: int|
        0 <= i && i + part.len() <= j <= s.len() - part.len() && #[trigger] s.subrange(
            i,
            i + part.len(),
        ) == part && #[trigger] s.subrange(j, j + part.len()) == part {
        let (i, j) = choose|i: int, j: int|
            0 <= i && i + part.len() <= j <= s.len() - part.len() && #[trigger] s.subrange(
                i,
                i + part.len(),
            ) == part && #[trigger] s.subrange(j, j + part.len()) == part;
        assert(found_at(s, part, i) && found_at(s, part, j));
    }
}

/// A text with a separator in it parts at the last one: what stands behind
/// has none. A text without one does not part.
pub proof fn lemma_parts_at_last(before: Seq<char>, after: Seq<char>, c: char)
    requires
        !after.contains(c),
    ensures
        rsplit_once_at(before.push(c) + after, c) == Some((before, after)),
        rsplit_once_at(after, c) is None,
{
    let s = before.push(c) + after;
    let i = before.len() as int + 1;
    assert forall|j: int| i <= j < s.len() implies s[j] != c by {
        assert(s[j] == after[j - i]);
    }
    lemma_behind_last(s, c, i as int);
    assert(s.take(i - 1) =~= before);
    assert(s.skip(i as int) =~= after);
    assert forall|j: int| 0 <= j < after.len() implies after[j] != c by {}
    lemma_behind_last(after, c, 0);
}

/// A text with a separator in it parts at the first one: what stands before
/// has none. A text without one does not part.
pub proof fn lemma_parts_at_first(before: Seq<char>, after: Seq<char>, c: char)
    requires
        !before.contains(c),
    ensures
        split_once_at(before.push(c) + after, c) == Some((before, after)),
        split_once_at(before, c) is None,
{
    let s = before.push(c) + after;
    lemma_first_at(s, c, before.len() as int);
    lemma_first_at(before, c, before.len() as int);
    assert(s.take(before.len() as int) =~= before);
    assert(s.skip(before.len() as int + 1) =~= after);
}

proof fn lemma_first_at(s: Seq<char>, c: char, i: int)
    requires
        0 <= i <= s.len(),
        forall|j: int| 0 <= j < i ==> s[j] != c,
        i < s.len() ==> s[i] == c,
    ensures
        first_position(s, c) == i,
    decreases s.len(),
{
    if i > 0 {
        lemma_first_at(s.skip(1), c, i - 1);
    }
}

/// Trimming takes the white space from both ends and nothing else: what is
/// left neither begins nor ends with any, and it is the text itself where
/// that does not.
pub proof fn lemma_trimmed(s: Seq<char>)
    ensures
        trimmed(s).len() > 0 ==> !is_space(trimmed(s)[0]) && !is_space(trimmed(s).last()),
        s.len() > 0 && !is_space(s[0]) && !is_space(s.last()) ==> trimmed(s) == s,
        exists|a: int, b: int|
            0 <= a <= b <= s.len() && #[trigger] s.subrange(a, b) == trimmed(s) && (forall|i: int|
                0 <= i < a || b <= i < s.len() ==> is_space(#[trigger] s[i])),
{
    let a = lemma_trimmed_start(s);
    let t = trimmed_start(s);
    let b = lemma_trimmed_end(t);
    assert(s.subrange(a, a + b) =~= trimmed(s));
    assert forall|i: int| 0 <= i < a || a + b <= i < s.len() implies is_space(#[trigger] s[i]) by {
        if i >= a {
            assert(t[i - a] == s[i]);
        }
    }
}

proof fn lemma_trimmed_start(s: Seq<char>) -> (a: int)
    ensures
        0 <= a <= s.len(),
        trimmed_start(s) == s.skip(a),
        forall|i: int| 0 <= i < a ==> is_space(#[trigger] s[i]),
        a < s.len() ==> !is_space(s[a]),
    decreases s.len(),
{
    if s.len() > 0 && is_space(s[0]) {
        let a = lemma_trimmed_start(s.skip(1));
        assert(s.skip(1).skip(a) =~= s.skip(a + 1));
        assert forall|i: int| 0 <= i < a + 1 implies is_space(#[trigger] s[i]) by {
            if i > 0 {
                assert(s.skip(1)[i - 1] == s[i]);
            }
        }
        a + 1
    } else {
        assert(s.skip(0) =~= s);
        0
    }
}

proof fn lemma_trimmed_end(s: Seq<char>) -> (b: int)
    ensures
        0 <= b <= s.len(),
        trimmed_end(s) == s.take(b),
        forall|i: int| b <= i < s.len() ==> is_space(#[trigger] s[i]),
        b > 0 ==> !is_space(s[b - 1]),
    decreases s.len(),
{
    if s.len() > 0 && is_space(s.last()) {
        let b = lemma_trimmed_end(s.drop_last());
        assert(s.drop_last().take(b) =~= s.take(b));
        assert forall|i: int| b <= i < s.len() implies is_space(#[trigger] s[i]) by {
            if i < s.len() - 1 {
                assert(s.drop_last()[i] == s[i]);
            }
        }
        b
    } else {
        assert(s.take(s.len() as int) =~= s);
        s.len() as int
    }
}

/// A number is read back from its digits, and only from digits.
pub proof fn lemma_number_read(n: u32, s: Seq<char>)
    ensures
        number(digits(n as nat)) == Some(n),
        s.len() > 0 && !('0' <= s[0] <= '9') && s[0] != '+' ==> number(s) is None,
{
    lemma_digits_read(n as nat);
    if s.len() > 0 && !('0' <= s[0] <= '9') && s[0] != '+' {
        lemma_no_run(s);
    }
}

proof fn lemma_no_run(s: Seq<char>)
    requires
        s.len() > 0,
        !('0' <= s[0] <= '9'),
    ensures
        run_value(s) is None,
    decreases s.len(),
{
    if s.len() > 1 {
        lemma_no_run(s.drop_last());
    }
}

/// Letters are alike in either case, and other characters only to
/// themselves.
pub proof fn lemma_alike(a: Seq<char>, b: Seq<char>)
    ensures
        alike(a, a),
        alike(a, b) == alike(b, a),
        alike(a, b) ==> a.len() == b.len() && forall|i: int|
            0 <= i < a.len() ==> (#[trigger] a[i] == b[i] || ('A' <= a[i] <= 'Z' && b[i] as u32
                == a[i] as u32 + 32) || ('A' <= b[i] <= 'Z' && a[i] as u32 == b[i] as u32 + 32)),
{
    if alike(a, b) {
        assert forall|i: int| 0 <= i < a.len() implies (#[trigger] a[i] == b[i] || ('A' <= a[i]
            <= 'Z' && b[i] as u32 == a[i] as u32 + 32) || ('A' <= b[i] <= 'Z' && a[i] as u32
            == b[i] as u32 + 32)) by {
            assert(lower(a[i]) == lower(b[i]));
        }
    }
}

} // verus!

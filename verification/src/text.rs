//! Text operations, stated over sequences of characters.

use vstd::prelude::*;

verus! {

/// Whether two strings hold the same characters.
pub fn same_text(a: &str, b: &str) -> (r: bool)
    ensures
        r == (a@ == b@),
{
    a.to_owned() == b.to_owned()
}

/// Whether `s` ends with `suffix`.
pub fn ends_with(s: &str, suffix: &str) -> (r: bool)
    ensures
        r == suffix@.is_suffix_of(s@),
{
    let n: usize = s.unicode_len();
    let m: usize = suffix.unicode_len();
    if m > n {
        return false;
    }
    same_text(s.substring_char(n - m, n), suffix)
}

/// Whether `s` starts with `prefix`.
pub fn starts_with(s: &str, prefix: &str) -> (r: bool)
    ensures
        r == prefix@.is_prefix_of(s@),
{
    let n: usize = s.unicode_len();
    let m: usize = prefix.unicode_len();
    if m > n {
        return false;
    }
    same_text(s.substring_char(0, m), prefix)
}

/// `s` without the copies of `suffix` at its end. An empty suffix removes nothing.
pub open spec fn trimmed(s: Seq<char>, suffix: Seq<char>) -> Seq<char>
    decreases s.len(),
{
    if 0 < suffix.len() && suffix.is_suffix_of(s) {
        trimmed(s.take(s.len() - suffix.len()), suffix)
    } else {
        s
    }
}

/// Trimming makes a text shorter exactly where it ends with the suffix.
pub proof fn lemma_trimmed_len(s: Seq<char>, suffix: Seq<char>)
    requires
        suffix.len() > 0,
    ensures
        trimmed(s, suffix).len() <= s.len(),
        suffix.is_suffix_of(s) <==> trimmed(s, suffix).len() < s.len(),
    decreases s.len(),
{
    if suffix.is_suffix_of(s) {
        lemma_trimmed_len(s.take(s.len() - suffix.len()), suffix);
    }
}

/// Removes every copy of `suffix` that `s` ends with.
pub fn trim_suffix(s: &str, suffix: &str) -> (r: String)
    requires
        suffix@.len() > 0,
    ensures
        r@ == trimmed(s@, suffix@),
{
    let mut result: String = s.to_owned();
    let m: usize = suffix.unicode_len();
    while ends_with(result.as_str(), suffix)
        invariant
            m == suffix@.len(),
            m > 0,
            trimmed(result@, suffix@) == trimmed(s@, suffix@),
        decreases result@.len(),
    {
        let n: usize = result.as_str().unicode_len();
        let shorter: String = result.as_str().substring_char(0, n - m).to_owned();
        assert(shorter@ =~= result@.take(n - m));
        result = shorter;
    }
    result
}

/// The separated text `left`, one space, `right`.
pub open spec fn spaced(left: Seq<char>, right: Seq<char>) -> Seq<char> {
    left + seq![' '] + right
}

/// Joins two pieces of text with one space.
pub fn join_spaced(left: &str, right: &str) -> (r: String)
    ensures
        r@ == spaced(left@, right@),
{
    proof {
        reveal_strlit(" ");
    }
    let mut result: String = left.to_owned();
    result.append(" ");
    result.append(right);
    assert(" "@ =~= seq![' ']);
    result
}

/// The character of the decimal digit `d`.
pub open spec fn digit_char(d: nat) -> char {
    (48 + d) as char
}

/// `n` in decimal notation, without leading zeros.
pub open spec fn decimal(n: nat) -> Seq<char>
    decreases n,
{
    if n < 10 {
        seq![digit_char(n)]
    } else {
        decimal(n / 10).push(digit_char(n % 10))
    }
}

fn digit_text(d: u64) -> (r: &'static str)
    requires
        d < 10,
    ensures
        r@ == seq![digit_char(d as nat)],
{
    proof {
        reveal_strlit("0");
        reveal_strlit("1");
        reveal_strlit("2");
        reveal_strlit("3");
        reveal_strlit("4");
        reveal_strlit("5");
        reveal_strlit("6");
        reveal_strlit("7");
        reveal_strlit("8");
        reveal_strlit("9");
    }
    let r: &'static str = match d {
        0 => "0",
        1 => "1",
        2 => "2",
        3 => "3",
        4 => "4",
        5 => "5",
        6 => "6",
        7 => "7",
        8 => "8",
        _ => "9",
    };
    assert(r@ =~= seq![digit_char(d as nat)]);
    r
}

/// Writes `n` in decimal notation.
pub fn decimal_text(n: u64) -> (r: String)
    ensures
        r@ == decimal(n as nat),
    decreases n,
{
    if n < 10 {
        digit_text(n).to_owned()
    } else {
        let mut result: String = decimal_text(n / 10);
        result.append(digit_text(n % 10));
        assert(result@ =~= decimal(n as nat));
        result
    }
}

/// Whether `sep` stands in `s` at index `i`.
pub open spec fn occurs_at(s: Seq<char>, sep: Seq<char>, i: int) -> bool {
    &&& 0 <= i
    &&& i + sep.len() <= s.len()
    &&& s.subrange(i, i + sep.len()) == sep
}

/// Whether `i` is the least index at which `sep` stands in `s`.
pub open spec fn occurs_first_at(s: Seq<char>, sep: Seq<char>, i: int) -> bool {
    &&& occurs_at(s, sep, i)
    &&& forall|j: int| 0 <= j < i ==> !occurs_at(s, sep, j)
}

/// The least index at which `sep` stands in `s`, if it stands there at all.
pub open spec fn first_occurrence(s: Seq<char>, sep: Seq<char>) -> Option<int> {
    if exists|i: int| occurs_at(s, sep, i) {
        Some(choose|i: int| occurs_first_at(s, sep, i))
    } else {
        None
    }
}

/// A first occurrence is the only one there is.
pub proof fn lemma_first_occurrence(s: Seq<char>, sep: Seq<char>, i: int)
    requires
        occurs_first_at(s, sep, i),
    ensures
        first_occurrence(s, sep) == Some(i),
{
    let k = choose|k: int| occurs_first_at(s, sep, k);
    assert(occurs_at(s, sep, i));
    assert(occurs_first_at(s, sep, k));
    assert(!(k < i) && !(i < k));
}

/// Finds the first place at which `sep` stands in `s`.
pub fn find(s: &str, sep: &str) -> (r: Option<usize>)
    requires
        sep@.len() > 0,
    ensures
        match r {
            Some(i) => i + sep@.len() <= s@.len() && first_occurrence(s@, sep@) == Some(i as int),
            None => first_occurrence(s@, sep@) is None,
        },
{
    let n: usize = s.unicode_len();
    let m: usize = sep.unicode_len();
    let mut i: usize = 0;
    while m <= n - i
        invariant
            n == s@.len(),
            m == sep@.len(),
            m > 0,
            i <= n,
            forall|j: int| 0 <= j < i ==> !occurs_at(s@, sep@, j),
        decreases n - i,
    {
        if same_text(s.substring_char(i, i + m), sep) {
            proof {
                lemma_first_occurrence(s@, sep@, i as int);
            }
            return Some(i);
        }
        i = i + 1;
    }
    None
}

/// The pieces of `s` between the copies of `sep`, which are taken from the left and do not
/// overlap.
pub open spec fn pieces(s: Seq<char>, sep: Seq<char>) -> Seq<Seq<char>>
    decreases s.len(),
{
    match first_occurrence(s, sep) {
        Some(i) => if 0 < sep.len() && 0 <= i && i + sep.len() <= s.len() {
            seq![s.take(i)] + pieces(s.skip(i + sep.len()), sep)
        } else {
            seq![s]
        },
        None => seq![s],
    }
}

/// What a list of strings holds.
pub open spec fn texts(list: Seq<String>) -> Seq<Seq<char>> {
    list.map_values(|t: String| t@)
}

/// Splits `s` at the copies of `sep`.
pub fn split_on(s: &str, sep: &str) -> (r: Vec<String>)
    requires
        sep@.len() > 0,
    ensures
        texts(r@) == pieces(s@, sep@),
{
    let mut found: Vec<String> = Vec::new();
    let mut rest: String = s.to_owned();
    let m: usize = sep.unicode_len();
    assert(texts(found@) + pieces(rest@, sep@) =~= pieces(s@, sep@));
    loop
        invariant
            m == sep@.len(),
            m > 0,
            texts(found@) + pieces(rest@, sep@) == pieces(s@, sep@),
        decreases rest@.len(),
    {
        let ghost before = found@;
        match find(rest.as_str(), sep) {
            Some(i) => {
                let n: usize = rest.as_str().unicode_len();
                let piece: String = rest.as_str().substring_char(0, i).to_owned();
                let tail: String = rest.as_str().substring_char(i + m, n).to_owned();
                assert(piece@ =~= rest@.take(i as int));
                assert(tail@ =~= rest@.skip(i + m));
                found.push(piece);
                assert(texts(found@) =~= texts(before).push(piece@));
                assert(texts(found@) + pieces(tail@, sep@) =~= texts(before) + pieces(rest@, sep@));
                rest = tail;
            },
            None => {
                found.push(rest);
                assert(texts(found@) =~= texts(before) + seq![rest@]);
                return found;
            },
        }
    }
}

/// Whether `c` is a decimal digit.
pub open spec fn is_digit(c: char) -> bool {
    '0' <= c && c <= '9'
}

/// Whether every character of `s` is a decimal digit.
pub open spec fn all_digits(s: Seq<char>) -> bool {
    forall|i: int| 0 <= i < s.len() ==> is_digit(#[trigger] s[i])
}

/// The number that the decimal digits of `s` write.
pub open spec fn digits_value(s: Seq<char>) -> nat
    recommends
        all_digits(s),
    decreases s.len(),
{
    if s.len() == 0 {
        0
    } else {
        digits_value(s.drop_last()) * 10 + (s.last() as nat - 48) as nat
    }
}

/// `s` without one leading plus sign.
pub open spec fn unsigned_part(s: Seq<char>) -> Seq<char> {
    if s.len() > 0 && s[0] == '+' {
        s.skip(1)
    } else {
        s
    }
}

/// The 32-bit number that `s` writes: an optional plus sign, then decimal digits and nothing
/// else.
pub open spec fn number_in(s: Seq<char>) -> Option<u32> {
    let digits = unsigned_part(s);
    if digits.len() > 0 && all_digits(digits) && digits_value(digits) <= u32::MAX {
        Some(digits_value(digits) as u32)
    } else {
        None
    }
}

/// More digits never write a smaller number.
proof fn lemma_digits_value_grows(s: Seq<char>, k: int)
    requires
        0 <= k <= s.len(),
    ensures
        digits_value(s.take(k)) <= digits_value(s),
    decreases s.len(),
{
    if k == s.len() {
        assert(s.take(k) =~= s);
    } else {
        lemma_digits_value_grows(s.drop_last(), k);
        assert(s.drop_last().take(k) =~= s.take(k));
    }
}

/// Reads a 32-bit number.
pub fn parse_number(s: &str) -> (r: Option<u32>)
    ensures
        r == number_in(s@),
{
    let n: usize = s.unicode_len();
    let start: usize = if n > 0 && s.get_char(0) == '+' {
        1
    } else {
        0
    };
    let ghost digits = unsigned_part(s@);
    assert(digits =~= s@.skip(start as int));
    if start == n {
        return None;
    }
    let mut value: u32 = 0;
    let mut i: usize = start;
    while i < n
        invariant
            n == s@.len(),
            start <= i <= n,
            start < n,
            digits == s@.skip(start as int),
            digits == unsigned_part(s@),
            all_digits(digits.take(i - start)),
            value == digits_value(digits.take(i - start)),
        decreases n - i,
    {
        let c: char = s.get_char(i);
        assert(digits[i - start] == c);
        if c < '0' || c > '9' {
            return None;
        }
        let d: u32 = c as u32 - 48;
        assert(digits.take(i + 1 - start).drop_last() =~= digits.take(i - start));
        let wide: u64 = value as u64 * 10 + d as u64;
        assert(wide == digits_value(digits.take(i + 1 - start)));
        if wide > u32::MAX as u64 {
            proof {
                lemma_digits_value_grows(digits, i + 1 - start);
            }
            return None;
        }
        value = wide as u32;
        i = i + 1;
    }
    assert(digits.take(n - start) =~= digits);
    Some(value)
}

} // verus!

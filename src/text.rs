//! Character-level helpers: whitespace, splitting, case-insensitive words and
//! decimal numbers, all stated over `Seq<char>`.
use vstd::prelude::*;
use vstd::string::*;

verus! {

/// The characters that `char::is_whitespace` accepts (the Unicode
/// `White_Space` property).
pub open spec fn is_white(c: char) -> bool {
    let u = c as u32;
    (9 <= u && u <= 13) || u == 32 || u == 0x85 || u == 0xA0 || u == 0x1680 || (0x2000 <= u && u
        <= 0x200A) || u == 0x2028 || u == 0x2029 || u == 0x202F || u == 0x205F || u == 0x3000
}

pub fn is_white_char(c: char) -> (r: bool)
    ensures
        r == is_white(c),
{
    let u = c as u32;
    (9 <= u && u <= 13) || u == 32 || u == 0x85 || u == 0xA0 || u == 0x1680 || (0x2000 <= u && u
        <= 0x200A) || u == 0x2028 || u == 0x2029 || u == 0x202F || u == 0x205F || u == 0x3000
}

/// `s` with every whitespace character removed.
pub open spec fn without_white(s: Seq<char>) -> Seq<char>
    decreases s.len(),
{
    if s.len() == 0 {
        s
    } else {
        let rest = without_white(s.drop_last());
        if is_white(s.last()) {
            rest
        } else {
            rest.push(s.last())
        }
    }
}

/// The characters of a string slice, one by one.
pub fn chars_of(s: &str) -> (r: Vec<char>)
    ensures
        r@ == s@,
{
    let n = s.unicode_len();
    let mut r: Vec<char> = Vec::new();
    let mut i: usize = 0;
    while i < n
        invariant
            n == s@.len(),
            i <= n,
            r@ == s@.subrange(0, i as int),
        decreases n - i,
    {
        r.push(s.get_char(i));
        i = i + 1;
        assert(r@ =~= s@.subrange(0, i as int));
    }
    assert(r@ =~= s@);
    r
}

/// Relies on `FromIterator<char> for String`: the string of exactly these
/// characters, in order.
#[verifier::external_body]
pub(crate) fn string_of(chars: &[char]) -> (r: String)
    ensures
        r@ == chars@,
{
    chars.iter().collect()
}

/// What `str::to_lowercase` returns for a string.
pub uninterp spec fn lower_of(s: Seq<char>) -> Seq<char>;

/// Relies on `str::to_lowercase`: the result depends on the characters alone,
/// and the empty string stays empty.
#[verifier::external_body]
fn lowercase(s: &str) -> (r: String)
    ensures
        r@ == lower_of(s@),
        s@.len() == 0 ==> r@.len() == 0,
{
    s.to_lowercase()
}

/// The lower-case string of the characters `chars`.
pub fn lowercase_of(chars: &[char]) -> (r: String)
    ensures
        r@ == lower_of(chars@),
{
    let s = string_of(chars);
    lowercase(s.as_str())
}

pub fn strip_white(s: &[char]) -> (r: Vec<char>)
    ensures
        r@ == without_white(s@),
{
    let mut r: Vec<char> = Vec::new();
    let mut i: usize = 0;
    while i < s.len()
        invariant
            i <= s@.len(),
            r@ == without_white(s@.subrange(0, i as int)),
        decreases s.len() - i,
    {
        let c = s[i];
        if !is_white_char(c) {
            r.push(c);
        }
        assert(s@.subrange(0, i + 1).drop_last() =~= s@.subrange(0, i as int));
        i = i + 1;
    }
    assert(s@.subrange(0, s@.len() as int) =~= s@);
    r
}

/// Whether `sep` occurs in `s` at position `i`.
pub open spec fn occurs_at(s: Seq<char>, sep: Seq<char>, i: int) -> bool {
    0 <= i && i + sep.len() <= s.len() && s.subrange(i, i + sep.len()) == sep
}

/// The pieces of `s` between the occurrences of `sep`, scanning from `i`,
/// where the current piece began at `start`; as `str::split` cuts them.
pub open spec fn split_from(s: Seq<char>, sep: Seq<char>, start: int, i: int) -> Seq<Seq<char>>
    recommends
        sep.len() > 0,
    decreases s.len() - i,
{
    if i >= s.len() || sep.len() == 0 {
        seq![s.subrange(start, s.len() as int)]
    } else if occurs_at(s, sep, i) {
        seq![s.subrange(start, i)] + split_from(s, sep, i + sep.len(), i + sep.len())
    } else {
        split_from(s, sep, start, i + 1)
    }
}

/// `s` cut at every occurrence of `sep`, left to right.
pub open spec fn split_on(s: Seq<char>, sep: Seq<char>) -> Seq<Seq<char>> {
    split_from(s, sep, 0, 0)
}

proof fn lemma_split_nonempty(s: Seq<char>, sep: Seq<char>, start: int, i: int)
    ensures
        split_from(s, sep, start, i).len() > 0,
    decreases s.len() - i,
{
    if i >= s.len() || sep.len() == 0 {
    } else if occurs_at(s, sep, i) {
        lemma_split_nonempty(s, sep, i + sep.len(), i + sep.len());
    } else {
        lemma_split_nonempty(s, sep, start, i + 1);
    }
}

pub proof fn lemma_split_on_nonempty(s: Seq<char>, sep: Seq<char>)
    ensures
        split_on(s, sep).len() > 0,
{
    lemma_split_nonempty(s, sep, 0, 0);
}

fn occurs_at_exec(s: &[char], sep: &[char], i: usize) -> (r: bool)
    requires
        i <= s@.len(),
    ensures
        r == occurs_at(s@, sep@, i as int),
{
    let n = s.len();
    if sep.len() > n - i {
        return false;
    }
    let mut k: usize = 0;
    while k < sep.len()
        invariant
            n == s@.len(),
            i <= s@.len(),
            i + sep@.len() <= s@.len(),
            k <= sep@.len(),
            forall|j: int| 0 <= j < k ==> s@[i + j] == sep@[j],
        decreases sep.len() - k,
    {
        if s[i + k] != sep[k] {
            assert(s@.subrange(i as int, i + sep@.len())[k as int] != sep@[k as int]);
            return false;
        }
        k = k + 1;
    }
    assert(s@.subrange(i as int, i + sep@.len()) =~= sep@);
    true
}

/// The slice `s[from..to]` as a vector.
pub fn slice_of(s: &[char], from: usize, to: usize) -> (r: Vec<char>)
    requires
        from <= to <= s@.len(),
    ensures
        r@ == s@.subrange(from as int, to as int),
{
    let mut r: Vec<char> = Vec::new();
    let mut i: usize = from;
    while i < to
        invariant
            from <= i <= to <= s@.len(),
            r@ == s@.subrange(from as int, i as int),
        decreases to - i,
    {
        r.push(s[i]);
        i = i + 1;
        assert(r@ =~= s@.subrange(from as int, i as int));
    }
    r
}

/// Cuts `s` at every occurrence of the non-empty separator `sep`.
pub fn split_chars(s: &[char], sep: &[char]) -> (r: Vec<Vec<char>>)
    requires
        sep@.len() > 0,
    ensures
        r@.len() == split_on(s@, sep@).len(),
        forall|j: int| 0 <= j < r@.len() ==> #[trigger] r@[j]@ == split_on(s@, sep@)[j],
{
    let ghost whole = split_on(s@, sep@);
    let ghost mut done: Seq<Seq<char>> = Seq::empty();
    let mut r: Vec<Vec<char>> = Vec::new();
    let mut start: usize = 0;
    let mut i: usize = 0;
    while i < s.len()
        invariant
            start <= i <= s@.len(),
            sep@.len() > 0,
            whole == split_on(s@, sep@),
            r@.len() == done.len(),
            forall|j: int| 0 <= j < r@.len() ==> #[trigger] r@[j]@ == done[j],
            whole == done + split_from(s@, sep@, start as int, i as int),
        decreases s.len() - i,
    {
        if occurs_at_exec(s, sep, i) {
            let piece = slice_of(s, start, i);
            proof {
                assert(whole == (done + seq![piece@]) + split_from(
                    s@,
                    sep@,
                    i + sep@.len(),
                    i + sep@.len(),
                ));
                done = done.push(piece@);
            }
            r.push(piece);
            i = i + sep.len();
            start = i;
        } else {
            i = i + 1;
        }
    }
    let piece = slice_of(s, start, s.len());
    proof {
        assert(whole == done.push(piece@));
        done = done.push(piece@);
    }
    r.push(piece);
    r
}

/// Index of the first `c` in `s` at or after `i`, or -1.
pub open spec fn first_from(s: Seq<char>, c: char, i: int) -> int
    decreases s.len() - i,
{
    if i < 0 || i >= s.len() {
        -1
    } else if s[i] == c {
        i
    } else {
        first_from(s, c, i + 1)
    }
}

/// Index of the first `c` in `s`, or -1 (`str::find`).
pub open spec fn first_index(s: Seq<char>, c: char) -> int {
    first_from(s, c, 0)
}

/// Index of the last `c` in `s` before `i`, or -1.
pub open spec fn last_before(s: Seq<char>, c: char, i: int) -> int
    decreases i,
{
    if i <= 0 || i > s.len() {
        -1
    } else if s[i - 1] == c {
        i - 1
    } else {
        last_before(s, c, i - 1)
    }
}

/// Index of the last `c` in `s`, or -1 (`str::rfind`).
pub open spec fn last_index(s: Seq<char>, c: char) -> int {
    last_before(s, c, s.len() as int)
}

proof fn lemma_first_from_range(s: Seq<char>, c: char, i: int)
    ensures
        first_from(s, c, i) == -1 || (i <= first_from(s, c, i) < s.len() && s[first_from(
            s,
            c,
            i,
        )] == c),
    decreases s.len() - i,
{
    if 0 <= i < s.len() && s[i] != c {
        lemma_first_from_range(s, c, i + 1);
    }
}

proof fn lemma_last_before_range(s: Seq<char>, c: char, i: int)
    ensures
        last_before(s, c, i) == -1 || (0 <= last_before(s, c, i) < i && s[last_before(s, c, i)]
            == c),
    decreases i,
{
    if 0 < i <= s.len() && s[i - 1] != c {
        lemma_last_before_range(s, c, i - 1);
    }
}

pub fn first_index_of(s: &[char], c: char) -> (r: Option<usize>)
    ensures
        match r {
            Some(i) => i as int == first_index(s@, c),
            None => first_index(s@, c) == -1,
        },
        first_index(s@, c) < s@.len(),
{
    let mut i: usize = 0;
    while i < s.len()
        invariant
            i <= s@.len(),
            first_index(s@, c) == first_from(s@, c, i as int),
        decreases s.len() - i,
    {
        if s[i] == c {
            proof {
                lemma_first_from_range(s@, c, 0);
            }
            return Some(i);
        }
        i = i + 1;
    }
    None
}

pub fn last_index_of(s: &[char], c: char) -> (r: Option<usize>)
    ensures
        match r {
            Some(i) => i as int == last_index(s@, c),
            None => last_index(s@, c) == -1,
        },
        last_index(s@, c) < s@.len(),
{
    let mut i: usize = s.len();
    while i > 0
        invariant
            i <= s@.len(),
            last_index(s@, c) == last_before(s@, c, i as int),
        decreases i,
    {
        if s[i - 1] == c {
            proof {
                lemma_last_before_range(s@, c, s@.len() as int);
            }
            return Some(i - 1);
        }
        i = i - 1;
    }
    None
}

/// `c` is the letter `k`, in either case, where `k` is a lower-case ASCII
/// letter; any other `k` matches only itself.
pub open spec fn same_letter(c: char, k: char) -> bool {
    c == k || (97 <= (k as u32) <= 122 && (c as u32) + 32 == (k as u32))
}

fn same_letter_exec(c: char, k: char) -> (r: bool)
    ensures
        r == same_letter(c, k),
{
    let ku = k as u32;
    let cu = c as u32;
    c == k || (97 <= ku && ku <= 122 && cu + 32 == ku)
}

/// `s` begins with the lower-case word `w`, ignoring ASCII case.
pub open spec fn starts_with_word(s: Seq<char>, w: Seq<char>) -> bool {
    w.len() <= s.len() && forall|i: int| 0 <= i < w.len() ==> same_letter(#[trigger] s[i], w[i])
}

/// `s` is the lower-case word `w`, ignoring ASCII case.
pub open spec fn is_word(s: Seq<char>, w: Seq<char>) -> bool {
    s.len() == w.len() && starts_with_word(s, w)
}

pub fn starts_with_word_exec(s: &[char], w: &str) -> (r: bool)
    ensures
        r == starts_with_word(s@, w@),
{
    let n = w.unicode_len();
    if n > s.len() {
        return false;
    }
    let mut i: usize = 0;
    while i < n
        invariant
            n == w@.len() <= s@.len(),
            i <= n,
            forall|j: int| 0 <= j < i ==> same_letter(#[trigger] s@[j], w@[j]),
        decreases n - i,
    {
        if !same_letter_exec(s[i], w.get_char(i)) {
            return false;
        }
        i = i + 1;
    }
    true
}

pub fn is_word_exec(s: &[char], w: &str) -> (r: bool)
    ensures
        r == is_word(s@, w@),
{
    s.len() == w.unicode_len() && starts_with_word_exec(s, w)
}

/// Value of an ASCII decimal digit.
pub open spec fn digit_value(c: char) -> int {
    (c as u32) - 48
}

pub open spec fn is_digit(c: char) -> bool {
    48 <= (c as u32) <= 57
}

/// Value of a sequence of decimal digits.
pub open spec fn digits_value(s: Seq<char>) -> int
    decreases s.len(),
{
    if s.len() == 0 {
        0
    } else {
        digits_value(s.drop_last()) * 10 + digit_value(s.last())
    }
}

pub open spec fn all_digits(s: Seq<char>) -> bool {
    s.len() > 0 && forall|i: int| 0 <= i < s.len() ==> is_digit(#[trigger] s[i])
}

/// The integer that `s` writes in decimal, with an optional sign, as
/// `str::parse::<i32>` reads it before its range check.
pub open spec fn decimal_of(s: Seq<char>) -> Option<int> {
    if s.len() > 0 && (s[0] == '-' || s[0] == '+') {
        let d = s.drop_first();
        if all_digits(d) {
            Some(
                if s[0] == '-' {
                    -digits_value(d)
                } else {
                    digits_value(d)
                },
            )
        } else {
            None
        }
    } else if all_digits(s) {
        Some(digits_value(s))
    } else {
        None
    }
}

/// What `str::parse::<i32>` returns, as an option.
pub open spec fn i32_of(s: Seq<char>) -> Option<i32> {
    match decimal_of(s) {
        Some(v) => if i32::MIN <= v <= i32::MAX {
            Some(v as i32)
        } else {
            None
        },
        None => None,
    }
}

proof fn lemma_digits_grow(s: Seq<char>, i: int)
    requires
        0 <= i <= s.len(),
        forall|j: int| 0 <= j < s.len() ==> is_digit(#[trigger] s[j]),
    ensures
        digits_value(s.subrange(0, i)) <= digits_value(s),
        0 <= digits_value(s.subrange(0, i)),
    decreases s.len() - i,
{
    if i < s.len() {
        lemma_digits_grow(s, i + 1);
        let t = s.subrange(0, i + 1);
        assert(t.drop_last() =~= s.subrange(0, i));
        assert(is_digit(t.last()));
    } else {
        assert(s.subrange(0, i) =~= s);
        lemma_digits_nonneg(s);
    }
}

proof fn lemma_digits_nonneg(s: Seq<char>)
    requires
        forall|j: int| 0 <= j < s.len() ==> is_digit(#[trigger] s[j]),
    ensures
        0 <= digits_value(s),
    decreases s.len(),
{
    if s.len() > 0 {
        let t = s.drop_last();
        assert forall|j: int| 0 <= j < t.len() implies is_digit(#[trigger] t[j]) by {
            assert(t[j] == s[j]);
        }
        lemma_digits_nonneg(t);
        assert(is_digit(s.last()));
    }
}

/// Reads a decimal `i32` as `str::parse::<i32>` does.
pub fn parse_i32(s: &[char]) -> (r: Option<i32>)
    ensures
        r == i32_of(s@),
{
    let n = s.len();
    if n == 0 {
        return None;
    }
    let negative = s[0] == '-';
    let start: usize = if s[0] == '-' || s[0] == '+' {
        1
    } else {
        0
    };
    let ghost d = s@.subrange(start as int, n as int);
    proof {
        if start == 1 {
            assert(d =~= s@.drop_first());
        } else {
            assert(d =~= s@);
        }
    }
    if start == n {
        return None;
    }
    let mut acc: i64 = 0;
    let mut i: usize = start;
    while i < n
        invariant
            start <= i <= n == s@.len(),
            n > 0,
            start == (if s@[0] == '-' || s@[0] == '+' {
                1int
            } else {
                0int
            }),
            negative == (s@[0] == '-'),
            start == 1 ==> d == s@.drop_first(),
            start == 0 ==> d == s@,
            d == s@.subrange(start as int, n as int),
            forall|j: int| start <= j < i ==> is_digit(#[trigger] s@[j]),
            acc == digits_value(s@.subrange(start as int, i as int)),
            0 <= acc <= 2147483648,
        decreases n - i,
    {
        let c = s[i];
        let u = c as u32;
        if u < 48 || u > 57 {
            assert(d[i - start] == c);
            assert(!is_digit(d[i - start]));
            assert(!all_digits(d));
            return None;
        }
        let ghost prev = s@.subrange(start as int, i as int);
        let ghost next = s@.subrange(start as int, i + 1);
        assert(next.drop_last() =~= prev);
        assert(next.last() == c);
        let v = acc * 10 + (u - 48) as i64;
        assert(v == digits_value(next));
        if v > 2147483648 {
            proof {
                if all_digits(d) {
                    assert(d.subrange(0, i + 1 - start) =~= next);
                    lemma_digits_grow(d, i + 1 - start);
                    assert(digits_value(d) > 2147483648);
                }
            }
            return None;
        }
        acc = v;
        i = i + 1;
    }
    assert(s@.subrange(start as int, i as int) =~= d);
    if negative {
        Some((0 - acc) as i32)
    } else if acc > 2147483647 {
        None
    } else {
        Some(acc as i32)
    }
}

/// `parts` joined by `sep` (`[String]::join`).
pub open spec fn join_with(parts: Seq<Seq<char>>, sep: Seq<char>) -> Seq<char>
    decreases parts.len(),
{
    if parts.len() == 0 {
        Seq::empty()
    } else if parts.len() == 1 {
        parts[0]
    } else {
        join_with(parts.drop_last(), sep) + sep + parts.last()
    }
}

/// `s` with every occurrence of `from` replaced by `to`, left to right
/// (`str::replace`).
pub open spec fn replaced(s: Seq<char>, from: Seq<char>, to: Seq<char>) -> Seq<char> {
    join_with(split_on(s, from), to)
}

/// Joins character sequences with `sep` between them.
pub fn join_chars(parts: &Vec<Vec<char>>, sep: &[char]) -> (r: Vec<char>)
    ensures
        r@ == join_with(parts@.map_values(|p: Vec<char>| p@), sep@),
{
    let ghost all = parts@.map_values(|p: Vec<char>| p@);
    let mut r: Vec<char> = Vec::new();
    let mut i: usize = 0;
    while i < parts.len()
        invariant
            i <= parts@.len() == all.len(),
            all == parts@.map_values(|p: Vec<char>| p@),
            r@ == join_with(all.subrange(0, i as int), sep@),
        decreases parts.len() - i,
    {
        let ghost pre = all.subrange(0, i + 1);
        assert(pre.drop_last() =~= all.subrange(0, i as int));
        assert(pre.last() == parts@[i as int]@);
        let ghost before = r@;
        if i > 0 {
            let mut s = slice_of(sep, 0, sep.len());
            assert(s@ =~= sep@);
            r.append(&mut s);
        }
        let mut p = parts[i].clone();
        r.append(&mut p);
        assert(r@ =~= join_with(pre, sep@));
        i = i + 1;
    }
    assert(all.subrange(0, all.len() as int) =~= all);
    r
}

/// `s` with every occurrence of the non-empty `from` replaced by `to`.
pub fn replace_chars(s: &[char], from: &[char], to: &[char]) -> (r: Vec<char>)
    requires
        from@.len() > 0,
    ensures
        r@ == replaced(s@, from@, to@),
{
    let pieces = split_chars(s, from);
    assert(pieces@.map_values(|p: Vec<char>| p@) =~= split_on(s@, from@));
    join_chars(&pieces, to)
}

/// The decimal digit for `d` below ten.
pub open spec fn digit_char(d: nat) -> char {
    seq!['0', '1', '2', '3', '4', '5', '6', '7', '8', '9'][d as int]
}

/// The decimal digits of `n`, as `u32::to_string` writes them.
pub open spec fn decimal(n: nat) -> Seq<char>
    decreases n,
{
    if n < 10 {
        seq![digit_char(n)]
    } else {
        decimal(n / 10).push(digit_char(n % 10))
    }
}

/// The decimal digits of `n`.
pub fn decimal_chars(n: u32) -> (r: Vec<char>)
    ensures
        r@ == decimal(n as nat),
    decreases n,
{
    let digits = vec!['0', '1', '2', '3', '4', '5', '6', '7', '8', '9'];
    assert(digits@ == seq!['0', '1', '2', '3', '4', '5', '6', '7', '8', '9']);
    if n < 10 {
        let mut r: Vec<char> = Vec::new();
        r.push(digits[n as usize]);
        assert(r@ =~= decimal(n as nat));
        r
    } else {
        let mut r = decimal_chars(n / 10);
        r.push(digits[(n % 10) as usize]);
        r
    }
}

} // verus!

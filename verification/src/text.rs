//! Character classes and the scans over text that the evaluator is built on.
use itertools::Itertools;
use vstd::prelude::*;
use vstd::slice::slice_subrange;

verus! {

/// A class of characters that the evaluator reads in runs.
#[derive(Clone, Copy, PartialEq, Eq, Debug)]
pub enum CharClass {
    /// `0` to `9`.
    Digit,
    /// `0` to `9` and the decimal point.
    DigitOrPoint,
    /// The ASCII letters of either case.
    Letter,
}

/// The digits `0` to `9`.
pub open spec fn is_digit(c: char) -> bool {
    '0' <= c <= '9'
}

/// The ASCII letters of either case.
pub open spec fn is_letter(c: char) -> bool {
    ('a' <= c <= 'z') || ('A' <= c <= 'Z')
}

/// The characters with the Unicode property `White_Space`.
pub open spec fn is_space(c: char) -> bool {
    let n = c as u32;
    (0x09 <= n <= 0x0D) || n == 0x20 || n == 0x85 || n == 0xA0 || n == 0x1680 || (0x2000 <= n
        <= 0x200A) || n == 0x2028 || n == 0x2029 || n == 0x202F || n == 0x205F || n == 0x3000
}

/// The lower-case form of an ASCII capital; any other character unchanged.
pub open spec fn lower(c: char) -> char {
    if 'A' <= c <= 'Z' {
        ((c as u8) + 32) as char
    } else {
        c
    }
}

impl CharClass {
    /// Whether `c` belongs to the class.
    pub open spec fn holds(self, c: char) -> bool {
        match self {
            CharClass::Digit => is_digit(c),
            CharClass::DigitOrPoint => is_digit(c) || c == '.',
            CharClass::Letter => is_letter(c),
        }
    }

    /// Whether `c` belongs to the class.
    pub fn test(self, c: char) -> (b: bool)
        ensures
            b == self.holds(c),
    {
        match self {
            CharClass::Digit => '0' <= c && c <= '9',
            CharClass::DigitOrPoint => ('0' <= c && c <= '9') || c == '.',
            CharClass::Letter => ('a' <= c && c <= 'z') || ('A' <= c && c <= 'Z'),
        }
    }
}

/// Whether `c` is white space.
pub fn char_is_space(c: char) -> (b: bool)
    ensures
        b == is_space(c),
{
    let n: u32 = c as u32;
    (0x09 <= n && n <= 0x0D) || n == 0x20 || n == 0x85 || n == 0xA0 || n == 0x1680 || (0x2000 <= n
        && n <= 0x200A) || n == 0x2028 || n == 0x2029 || n == 0x202F || n == 0x205F || n == 0x3000
}

/// The lower-case form of an ASCII capital; any other character unchanged.
pub fn char_lower(c: char) -> (r: char)
    ensures
        r == lower(c),
{
    if 'A' <= c && c <= 'Z' {
        let b: u8 = c as u8;
        (b + 32) as char
    } else {
        c
    }
}

/// The characters of a string slice, in order.
pub fn chars_of(s: &str) -> (v: Vec<char>)
    ensures
        v@ == s@,
{
    let mut v: Vec<char> = Vec::new();
    for c in it: s.chars()
        invariant
            v@ == it.seq().take(it.index()),
            it.seq() == s@,
    {
        v.push(c);
    }
    v
}

/// `String::push` of std: the string afterwards is the string before with `c`
/// appended.
#[verifier::external_body]
fn push_char(s: &mut String, c: char)
    ensures
        final(s)@ == old(s)@.push(c),
{
    s.push(c)
}

/// The string made of the characters of `v`, in order.
pub fn text_of(v: &Vec<char>) -> (s: String)
    ensures
        s@ == v@,
{
    let mut s = String::new();
    let mut i: usize = 0;
    while i < v.len()
        invariant
            i <= v.len(),
            s@ == v@.take(i as int),
        decreases v.len() - i,
    {
        push_char(&mut s, v[i]);
        i += 1;
        assert(v@.take(i as int) == v@.take(i - 1).push(v@[i - 1]));
    }
    assert(v@.take(v.len() as int) == v@);
    s
}

/// The characters of `s` from `lo` up to `hi`, as a text of their own.
pub fn subtext(s: &Vec<char>, lo: usize, hi: usize) -> (r: Vec<char>)
    requires
        lo <= hi <= s.len(),
    ensures
        r@ == s@.subrange(lo as int, hi as int),
{
    let mut r: Vec<char> = Vec::new();
    let mut i: usize = lo;
    while i < hi
        invariant
            lo <= i <= hi <= s.len(),
            r@ == s@.subrange(lo as int, i as int),
        decreases hi - i,
    {
        r.push(s[i]);
        i += 1;
        assert(s@.subrange(lo as int, i as int) == s@.subrange(lo as int, i - 1).push(s@[i - 1]));
    }
    r
}

/// The text without its white space, ASCII capitals turned to lower case.
pub open spec fn normalized(s: Seq<char>) -> Seq<char>
    decreases s.len(),
{
    if s.len() == 0 {
        Seq::empty()
    } else if is_space(s.last()) {
        normalized(s.drop_last())
    } else {
        normalized(s.drop_last()).push(lower(s.last()))
    }
}

/// Strips white space and lowers ASCII capitals.
pub fn normalize(input: &str) -> (r: Vec<char>)
    ensures
        r@ == normalized(input@),
{
    let raw = chars_of(input);
    let mut r: Vec<char> = Vec::new();
    let mut i: usize = 0;
    while i < raw.len()
        invariant
            i <= raw.len(),
            r@ == normalized(raw@.take(i as int)),
        decreases raw.len() - i,
    {
        let c = raw[i];
        proof {
            let next = raw@.take(i + 1);
            assert(next.drop_last() == raw@.take(i as int));
            assert(next.last() == c);
        }
        if !char_is_space(c) {
            r.push(char_lower(c));
        }
        i += 1;
    }
    assert(raw@.take(raw.len() as int) == raw@);
    r
}

/// Where the run of characters of `class` that starts at `from` ends: the
/// first position at or after `from` whose character is not of the class, or
/// the length of `s`.
pub open spec fn run_end(s: Seq<char>, from: int, class: CharClass) -> int
    decreases s.len() - from,
{
    if 0 <= from < s.len() && class.holds(s[from]) {
        run_end(s, from + 1, class)
    } else {
        from
    }
}

/// A run is bounded by the text, holds only characters of its class, and
/// stops at the first character outside it.
pub proof fn lemma_run_end(s: Seq<char>, from: int, class: CharClass)
    requires
        0 <= from <= s.len(),
    ensures
        from <= run_end(s, from, class) <= s.len(),
        forall|k: int| from <= k < run_end(s, from, class) ==> class.holds(#[trigger] s[k]),
        run_end(s, from, class) < s.len() ==> !class.holds(s[run_end(s, from, class)]),
    decreases s.len() - from,
{
    if from < s.len() && class.holds(s[from]) {
        lemma_run_end(s, from + 1, class);
    }
}

/// The one position that bounds a run is its end.
pub proof fn lemma_run_end_unique(s: Seq<char>, from: int, class: CharClass, end: int)
    requires
        0 <= from <= end <= s.len(),
        forall|k: int| from <= k < end ==> class.holds(#[trigger] s[k]),
        end < s.len() ==> !class.holds(s[end]),
    ensures
        run_end(s, from, class) == end,
    decreases end - from,
{
    if from < end {
        assert(class.holds(s[from]));
        lemma_run_end_unique(s, from + 1, class, end);
    }
}

/// `Itertools::take_while_ref` on the slice's iterator, counted: the number of
/// leading characters of `rest` that belong to `class`. The adaptor hands out
/// items while the predicate accepts them and leaves the first rejected one in
/// the iterator.
#[verifier::external_body]
fn leading_run(rest: &[char], class: CharClass) -> (n: usize)
    ensures
        n <= rest@.len(),
        forall|k: int| 0 <= k < n ==> class.holds(#[trigger] rest@[k]),
        n < rest@.len() ==> !class.holds(rest@[n as int]),
{
    let mut it = rest.iter();
    it.take_while_ref(|c| class.test(**c)).count()
}

/// The end of the run of `class` that starts at `from`.
pub fn scan_run(s: &Vec<char>, from: usize, class: CharClass) -> (end: usize)
    requires
        from <= s.len(),
    ensures
        end == run_end(s@, from as int, class),
        from <= end <= s.len(),
{
    let rest = slice_subrange(s.as_slice(), from, s.len());
    let n = leading_run(rest, class);
    proof {
        assert forall|k: int| from <= k < from + n implies class.holds(#[trigger] s@[k]) by {
            assert(rest@[k - from] == s@[k]);
        }
        if from + n < s.len() {
            assert(rest@[n as int] == s@[from + n]);
        }
        lemma_run_end_unique(s@, from as int, class, from + n);
    }
    from + n
}

/// The position of the first `c` at or after `from`, or the length of `s`
/// where there is none.
pub open spec fn find(s: Seq<char>, from: int, c: char) -> int
    decreases s.len() - from,
{
    if from < 0 || from >= s.len() {
        s.len() as int
    } else if s[from] == c {
        from
    } else {
        find(s, from + 1, c)
    }
}

/// What `find` gives lies in the text from `from` on, no `c` stands before
/// it, and `c` stands at it unless it is the end.
pub proof fn lemma_find(s: Seq<char>, from: int, c: char)
    requires
        0 <= from <= s.len(),
    ensures
        from <= find(s, from, c) <= s.len(),
        forall|k: int| from <= k < find(s, from, c) ==> #[trigger] s[k] != c,
        find(s, from, c) < s.len() ==> s[find(s, from, c)] == c,
    decreases s.len() - from,
{
    if from < s.len() && s[from] != c {
        lemma_find(s, from + 1, c);
    }
}

/// The one position that is the first `c`, or the end of a text without one,
/// is what `find` gives.
pub proof fn lemma_find_unique(s: Seq<char>, from: int, c: char, at: int)
    requires
        0 <= from <= at <= s.len(),
        forall|k: int| from <= k < at ==> #[trigger] s[k] != c,
        at < s.len() ==> s[at] == c,
    ensures
        find(s, from, c) == at,
    decreases at - from,
{
    if from < at {
        assert(s[from] != c);
        lemma_find_unique(s, from + 1, c, at);
    }
}

/// The position just behind `at`, or the length of `s` where `at` is the end.
pub open spec fn step_over(s: Seq<char>, at: int) -> int {
    if at < s.len() {
        at + 1
    } else {
        s.len() as int
    }
}

/// Finds the first `c` at or after `from`.
pub fn find_char(s: &Vec<char>, from: usize, c: char) -> (at: usize)
    requires
        from <= s.len(),
    ensures
        at == find(s@, from as int, c),
        from <= at <= s.len(),
{
    let mut i: usize = from;
    while i < s.len() && s[i] != c
        invariant
            from <= i <= s.len(),
            find(s@, from as int, c) == find(s@, i as int, c),
        decreases s.len() - i,
    {
        i += 1;
    }
    i
}

/// How often `c` occurs in `t`.
pub open spec fn occurrences(t: Seq<char>, c: char) -> nat
    decreases t.len(),
{
    if t.len() == 0 {
        0
    } else if t.last() == c {
        occurrences(t.drop_last(), c) + 1
    } else {
        occurrences(t.drop_last(), c)
    }
}

/// How many digits `t` holds.
pub open spec fn digit_count(t: Seq<char>) -> nat
    decreases t.len(),
{
    if t.len() == 0 {
        0
    } else if is_digit(t.last()) {
        digit_count(t.drop_last()) + 1
    } else {
        digit_count(t.drop_last())
    }
}

/// A decimal literal: digits with at most one decimal point among them, and at
/// least one digit. `5`, `5.`, `.5` and `5.5` are literals; `.` and `1.2.3` are
/// not.
pub open spec fn is_decimal(t: Seq<char>) -> bool {
    &&& forall|k: int| 0 <= k < t.len() ==> CharClass::DigitOrPoint.holds(#[trigger] t[k])
    &&& occurrences(t, '.') <= 1
    &&& digit_count(t) >= 1
}

/// Whether `t` is a decimal literal.
pub fn check_decimal(t: &Vec<char>) -> (r: bool)
    ensures
        r == is_decimal(t@),
{
    let mut points: usize = 0;
    let mut digits: usize = 0;
    let mut i: usize = 0;
    while i < t.len()
        invariant
            i <= t.len(),
            points == occurrences(t@.take(i as int), '.'),
            digits == digit_count(t@.take(i as int)),
            points <= i,
            digits <= i,
            forall|k: int| 0 <= k < i ==> CharClass::DigitOrPoint.holds(#[trigger] t@[k]),
        decreases t.len() - i,
    {
        let c = t[i];
        proof {
            let next = t@.take(i + 1);
            assert(next.drop_last() == t@.take(i as int));
            assert(next.last() == c);
        }
        if c == '.' {
            points += 1;
        } else if CharClass::Digit.test(c) {
            digits += 1;
        } else {
            return false;
        }
        i += 1;
    }
    assert(t@.take(t.len() as int) == t@);
    points <= 1 && digits >= 1
}

/// The number that a text of digits writes in base ten.
pub open spec fn decimal_value(t: Seq<char>) -> nat
    decreases t.len(),
{
    if t.len() == 0 {
        0
    } else {
        10 * decimal_value(t.drop_last()) + ((t.last() as u8 - '0' as u8) as nat)
    }
}

/// The digits of an index: the text itself, or what follows a leading `+`.
pub open spec fn index_digits(t: Seq<char>) -> Seq<char> {
    if t.len() > 0 && t[0] == '+' {
        t.drop_first()
    } else {
        t
    }
}

/// The index that `t` writes: an optional `+` and then one or more digits,
/// whose value fits the machine's word. Any other text writes none.
pub open spec fn index_value(t: Seq<char>) -> Option<usize> {
    let d = index_digits(t);
    if d.len() > 0 && (forall|k: int| 0 <= k < d.len() ==> is_digit(#[trigger] d[k]))
        && decimal_value(d) <= usize::MAX {
        Some(decimal_value(d) as usize)
    } else {
        None
    }
}

proof fn lemma_decimal_value_grows(t: Seq<char>, n: int)
    requires
        0 <= n <= t.len(),
    ensures
        decimal_value(t.take(n)) <= decimal_value(t),
    decreases t.len() - n,
{
    if n < t.len() {
        assert(t.take(n + 1).drop_last() == t.take(n));
        lemma_decimal_value_grows(t, n + 1);
    } else {
        assert(t.take(n) == t);
    }
}

/// Reads `t` as an index.
pub fn parse_index(t: &Vec<char>) -> (r: Option<usize>)
    ensures
        r == index_value(t@),
{
    let start: usize = if t.len() > 0 && t[0] == '+' {
        1
    } else {
        0
    };
    let ghost d = index_digits(t@);
    assert(d == t@.subrange(start as int, t.len() as int));
    if start == t.len() {
        return None;
    }
    let mut value: usize = 0;
    let mut i: usize = start;
    while i < t.len()
        invariant
            start <= i <= t.len(),
            d == t@.subrange(start as int, t.len() as int),
            d == index_digits(t@),
            value == decimal_value(d.take(i - start)),
            forall|k: int| 0 <= k < i - start ==> is_digit(#[trigger] d[k]),
        decreases t.len() - i,
    {
        let c = t[i];
        proof {
            let next = d.take(i + 1 - start);
            assert(next.drop_last() == d.take(i - start));
            assert(next.last() == c);
            lemma_decimal_value_grows(d, i + 1 - start);
        }
        if !CharClass::Digit.test(c) {
            assert(!is_digit(d[i - start]));
            return None;
        }
        let digit: usize = (c as u8 - '0' as u8) as usize;
        assert(decimal_value(d.take(i + 1 - start)) == 10 * value + digit);
        let shifted = match value.checked_mul(10) {
            Some(v) => v,
            None => {
                return None;
            },
        };
        value = match shifted.checked_add(digit) {
            Some(v) => v,
            None => {
                return None;
            },
        };
        i += 1;
    }
    assert(d.take(t.len() - start) == d);
    Some(value)
}

/// How deep in square brackets the text stands once `c` is read at depth
/// `depth`. A closing bracket at depth 0 leaves the depth at 0.
pub open spec fn depth_after(depth: nat, c: char) -> nat {
    if c == '[' {
        depth + 1
    } else if c == ']' && depth > 0 {
        (depth - 1) as nat
    } else {
        depth
    }
}

/// The position of the first comma at or after `from` that stands outside
/// square brackets, the text at `from` being `depth` brackets deep; or the
/// length of `s` where there is none.
pub open spec fn chunk_end(s: Seq<char>, from: int, depth: nat) -> int
    decreases s.len() - from,
{
    if from < 0 || from >= s.len() {
        s.len() as int
    } else if s[from] == ',' && depth == 0 {
        from
    } else {
        chunk_end(s, from + 1, depth_after(depth, s[from]))
    }
}

/// What `chunk_end` gives lies in the text from `from` on.
pub proof fn lemma_chunk_end(s: Seq<char>, from: int, depth: nat)
    requires
        0 <= from <= s.len(),
    ensures
        from <= chunk_end(s, from, depth) <= s.len(),
    decreases s.len() - from,
{
    if from < s.len() && !(s[from] == ',' && depth == 0) {
        lemma_chunk_end(s, from + 1, depth_after(depth, s[from]));
    }
}

fn scan_chunk(s: &Vec<char>, from: usize, depth: usize) -> (end: usize)
    requires
        from <= s.len(),
        depth <= from,
    ensures
        end == chunk_end(s@, from as int, depth as nat),
        from <= end <= s.len(),
{
    let mut i: usize = from;
    let mut level: usize = depth;
    while i < s.len() && !(s[i] == ',' && level == 0)
        invariant
            from <= i <= s.len(),
            level <= i,
            chunk_end(s@, from as int, depth as nat) == chunk_end(s@, i as int, level as nat),
        decreases s.len() - i,
    {
        let c = s[i];
        if c == '[' {
            level += 1;
        } else if c == ']' && level > 0 {
            level -= 1;
        }
        i += 1;
    }
    i
}

/// The components of a vector literal's text from position `p` on: the text
/// cut at each comma that stands outside square brackets. A text without such
/// a comma is one component, the empty text too.
pub open spec fn components_from(s: Seq<char>, p: int) -> Seq<Seq<char>>
    decreases s.len() - p,
{
    let end = chunk_end(s, p, 0);
    if p < 0 || p > s.len() || end < p {
        Seq::empty()
    } else if end >= s.len() {
        seq![s.subrange(p, s.len() as int)]
    } else {
        seq![s.subrange(p, end)] + components_from(s, end + 1)
    }
}

/// The components of a vector literal's text.
pub open spec fn components(s: Seq<char>) -> Seq<Seq<char>> {
    components_from(s, 0)
}

/// The arguments of a call from position `p` of the argument text on. An
/// argument starts with the character at `p`, whatever it is, and runs up to
/// the next comma outside square brackets. The comma is dropped, and the next
/// argument starts behind it.
pub open spec fn arguments_from(s: Seq<char>, p: int) -> Seq<Seq<char>>
    decreases s.len() - p,
{
    if p < 0 || p >= s.len() {
        Seq::empty()
    } else {
        let end = chunk_end(s, p + 1, depth_after(0, s[p]));
        if end <= p {
            Seq::empty()
        } else if end >= s.len() {
            seq![s.subrange(p, s.len() as int)]
        } else {
            seq![s.subrange(p, end)] + arguments_from(s, end + 1)
        }
    }
}

/// The arguments of a call, given the text between the function's name and
/// the closing parenthesis.
pub open spec fn arguments(s: Seq<char>) -> Seq<Seq<char>> {
    arguments_from(s, 0)
}

/// Every component is a stretch of the text, so none is longer.
pub proof fn lemma_components_short(s: Seq<char>, p: int)
    ensures
        forall|k: int|
            0 <= k < components_from(s, p).len() ==> (#[trigger] components_from(s, p)[k]).len()
                <= s.len(),
    decreases s.len() - p,
{
    let end = chunk_end(s, p, 0);
    if !(p < 0 || p > s.len() || end < p) {
        lemma_chunk_end(s, p, 0);
        if end < s.len() {
            lemma_components_short(s, end + 1);
            let rest = components_from(s, end + 1);
            assert forall|k: int| 0 <= k < components_from(s, p).len() implies (
            #[trigger] components_from(s, p)[k]).len() <= s.len() by {
                if k > 0 {
                    assert(components_from(s, p)[k] == rest[k - 1]);
                }
            }
        }
    }
}

/// Every argument is a stretch of the text, so none is longer.
pub proof fn lemma_arguments_short(s: Seq<char>, p: int)
    ensures
        forall|k: int|
            0 <= k < arguments_from(s, p).len() ==> (#[trigger] arguments_from(s, p)[k]).len()
                <= s.len(),
    decreases s.len() - p,
{
    if !(p < 0 || p >= s.len()) {
        let end = chunk_end(s, p + 1, depth_after(0, s[p]));
        lemma_chunk_end(s, p + 1, depth_after(0, s[p]));
        if end < s.len() {
            lemma_arguments_short(s, end + 1);
            let rest = arguments_from(s, end + 1);
            assert forall|k: int| 0 <= k < arguments_from(s, p).len() implies (
            #[trigger] arguments_from(s, p)[k]).len() <= s.len() by {
                if k > 0 {
                    assert(arguments_from(s, p)[k] == rest[k - 1]);
                }
            }
        }
    }
}

/// The texts that a list of character vectors holds.
pub open spec fn texts(v: Seq<Vec<char>>) -> Seq<Seq<char>> {
    Seq::new(v.len(), |i: int| v[i]@)
}

/// Cuts the text of a vector literal into its components.
pub fn split_components(s: &Vec<char>) -> (r: Vec<Vec<char>>)
    ensures
        texts(r@) == components(s@),
{
    let mut r: Vec<Vec<char>> = Vec::new();
    let mut p: usize = 0;
    assert(texts(r@) + components_from(s@, 0) == components_from(s@, 0));
    loop
        invariant_except_break
            p <= s.len(),
            components(s@) == texts(r@) + components_from(s@, p as int),
        ensures
            texts(r@) == components(s@),
        decreases s.len() - p,
    {
        let end = scan_chunk(s, p, 0);
        let piece = subtext(s, p, end);
        let ghost before = texts(r@);
        r.push(piece);
        assert(texts(r@) == before.push(s@.subrange(p as int, end as int)));
        if end >= s.len() {
            assert(before + seq![s@.subrange(p as int, end as int)] == texts(r@));
            break;
        }
        assert(before + (seq![s@.subrange(p as int, end as int)] + components_from(
            s@,
            end + 1,
        )) == texts(r@) + components_from(s@, end + 1));
        p = end + 1;
    }
    r
}

/// Cuts the argument text of a call into its arguments.
pub fn split_arguments(s: &Vec<char>) -> (r: Vec<Vec<char>>)
    ensures
        texts(r@) == arguments(s@),
{
    let mut r: Vec<Vec<char>> = Vec::new();
    let mut p: usize = 0;
    assert(texts(r@) + arguments_from(s@, 0) == arguments_from(s@, 0));
    while p < s.len()
        invariant
            p <= s.len(),
            arguments(s@) == texts(r@) + arguments_from(s@, p as int),
        decreases s.len() - p,
    {
        let first = s[p];
        let depth: usize = if first == '[' {
            1
        } else {
            0
        };
        let end = scan_chunk(s, p + 1, depth);
        let piece = subtext(s, p, end);
        let ghost before = texts(r@);
        r.push(piece);
        assert(texts(r@) == before.push(s@.subrange(p as int, end as int)));
        if end >= s.len() {
            assert(before + seq![s@.subrange(p as int, end as int)] == texts(r@));
            assert(arguments_from(s@, s.len() as int) == Seq::<Seq<char>>::empty());
            p = s.len();
        } else {
            assert(before + (seq![s@.subrange(p as int, end as int)] + arguments_from(
                s@,
                end + 1,
            )) == texts(r@) + arguments_from(s@, end + 1));
            p = end + 1;
        }
    }
    assert(arguments_from(s@, p as int) == Seq::<Seq<char>>::empty());
    r
}

} // verus!

//! Text as a sequence of characters: the small set of string operations that
//! the rest of the library is written in, each with its meaning.
use vstd::prelude::*;

verus! {

/// `String::push` of std: appends one character.
pub assume_specification[ String::push ](s: &mut String, c: char)
    ensures
        final(s)@ == old(s)@.push(c),
;

/// The characters with the Unicode property `White_Space`.
pub open spec fn is_white_space(c: char) -> bool {
    let n = c as u32;
    ||| 0x9 <= n <= 0xD
    ||| n == 0x20
    ||| n == 0x85
    ||| n == 0xA0
    ||| n == 0x1680
    ||| 0x2000 <= n <= 0x200A
    ||| n == 0x2028
    ||| n == 0x2029
    ||| n == 0x202F
    ||| n == 0x205F
    ||| n == 0x3000
}

/// `s` without its leading white space.
pub open spec fn trim_start(s: Seq<char>) -> Seq<char>
    decreases s.len(),
{
    if s.len() > 0 && is_white_space(s[0]) {
        trim_start(s.subrange(1, s.len() as int))
    } else {
        s
    }
}

/// `s` without its trailing white space.
pub open spec fn trim_end(s: Seq<char>) -> Seq<char>
    decreases s.len(),
{
    if s.len() > 0 && is_white_space(s.last()) {
        trim_end(s.drop_last())
    } else {
        s
    }
}

/// `s` without white space at either end.
pub open spec fn trimmed(s: Seq<char>) -> Seq<char> {
    trim_end(trim_start(s))
}

/// `s` without the characters `c` at its end.
pub open spec fn without_trailing(s: Seq<char>, c: char) -> Seq<char>
    decreases s.len(),
{
    if s.len() > 0 && s.last() == c {
        without_trailing(s.drop_last(), c)
    } else {
        s
    }
}

/// An ASCII letter in lower case; any other character unchanged.
pub open spec fn lower_char(c: char) -> char {
    if 'A' <= c <= 'Z' {
        ((c as u32 + 32) as u32) as char
    } else {
        c
    }
}

/// `s` with its ASCII letters in lower case.
pub open spec fn lower(s: Seq<char>) -> Seq<char> {
    s.map_values(|c: char| lower_char(c))
}

/// How a flag is written.
pub open spec fn flag_text(b: bool) -> Seq<char> {
    if b {
        "true"@
    } else {
        "false"@
    }
}

/// How a flag is written.
pub fn flag_str(b: bool) -> (r: &'static str)
    ensures
        r@ == flag_text(b),
{
    if b {
        "true"
    } else {
        "false"
    }
}

/// The digit for `d`, with letters from ten upwards.
pub open spec fn digit_char(d: int) -> char {
    if d < 10 {
        ((48 + d) as u32) as char
    } else {
        ((87 + d) as u32) as char
    }
}

/// `n` written in the given base, most significant digit first.
pub open spec fn digits(n: nat, base: nat) -> Seq<char>
    decreases n,
    via digits_shrink
{
    if base < 2 || n < base {
        seq![digit_char(n as int)]
    } else {
        digits(n / base, base).push(digit_char((n % base) as int))
    }
}

#[via_fn]
proof fn digits_shrink(n: nat, base: nat) {
    if base >= 2 && n >= base {
        assert(n / base < n) by (nonlinear_arith)
            requires
                n >= base,
                base >= 2,
        ;
    }
}

/// `n` in decimal.
pub open spec fn decimal(n: nat) -> Seq<char> {
    digits(n, 10)
}

/// `n` in lower-case hexadecimal, without leading zeros.
pub open spec fn hexadecimal(n: nat) -> Seq<char> {
    digits(n, 16)
}

/// The pieces of `s` between the occurrences of `sep`.
pub open spec fn split_on(s: Seq<char>, sep: char) -> Seq<Seq<char>>
    decreases s.len(),
{
    if s.len() == 0 {
        seq![s]
    } else {
        let before = split_on(s.drop_last(), sep);
        if s.last() == sep {
            before.push(Seq::empty())
        } else {
            before.drop_last().push(before.last().push(s.last()))
        }
    }
}

/// The pieces joined, with `sep` between neighbours.
pub open spec fn joined(parts: Seq<Seq<char>>, sep: Seq<char>) -> Seq<char>
    decreases parts.len(),
{
    if parts.len() == 0 {
        Seq::empty()
    } else if parts.len() == 1 {
        parts[0]
    } else {
        joined(parts.drop_last(), sep) + sep + parts.last()
    }
}

/// The texts that a list of strings holds.
pub open spec fn texts(v: Seq<String>) -> Seq<Seq<char>> {
    v.map_values(|s: String| s@)
}

/// The text of an optional string.
pub open spec fn opt_text(o: Option<String>) -> Option<Seq<char>> {
    match o {
        Some(s) => Some(s@),
        None => None,
    }
}

proof fn lemma_trim_start_part(s: Seq<char>)
    ensures
        trim_start(s).len() <= s.len(),
        forall|c: char| #[trigger] trim_start(s).contains(c) ==> s.contains(c),
    decreases s.len(),
{
    if s.len() > 0 && is_white_space(s[0]) {
        let rest = s.subrange(1, s.len() as int);
        lemma_trim_start_part(rest);
        assert forall|c: char| trim_start(s).contains(c) implies s.contains(c) by {
            assert(trim_start(rest).contains(c));
            let i = choose|i: int| 0 <= i < rest.len() && rest[i] == c;
            assert(s[i + 1] == c);
        }
    }
}

proof fn lemma_trim_end_part(s: Seq<char>)
    ensures
        trim_end(s).len() <= s.len(),
        forall|c: char| #[trigger] trim_end(s).contains(c) ==> s.contains(c),
    decreases s.len(),
{
    if s.len() > 0 && is_white_space(s.last()) {
        let rest = s.drop_last();
        lemma_trim_end_part(rest);
        assert forall|c: char| trim_end(s).contains(c) implies s.contains(c) by {
            assert(trim_end(rest).contains(c));
            let i = choose|i: int| 0 <= i < rest.len() && rest[i] == c;
            assert(s[i] == c);
        }
    }
}

/// Trimming adds nothing: it makes no text longer and no character appear.
pub proof fn lemma_trimmed_len(s: Seq<char>)
    ensures
        trimmed(s).len() <= s.len(),
        forall|c: char| #[trigger] trimmed(s).contains(c) ==> s.contains(c),
{
    lemma_trim_start_part(s);
    lemma_trim_end_part(trim_start(s));
}

/// The characters of a string.
pub fn chars_of(s: &str) -> (r: Vec<char>)
    ensures
        r@ == s@,
{
    let mut r: Vec<char> = Vec::new();
    for c in it: s.chars()
        invariant
            it.seq() == s@,
            r@ == s@.take(it.index() as int),
    {
        r.push(c);
    }
    assert(s@.take(s@.len() as int) =~= s@);
    r
}

/// The string made of the characters from `from` up to `to`.
pub fn text_between(cs: &[char], from: usize, to: usize) -> (r: String)
    requires
        from <= to <= cs@.len(),
    ensures
        r@ == cs@.subrange(from as int, to as int),
{
    let mut r = String::new();
    assert(r@ =~= cs@.subrange(from as int, from as int));
    for i in from..to
        invariant
            from <= to <= cs@.len(),
            from <= i,
            r@ == cs@.subrange(from as int, i as int),
    {
        r.push(cs[i]);
        assert(cs@.subrange(from as int, i + 1) =~= cs@.subrange(from as int, i as int).push(
            cs@[i as int],
        ));
    }
    r
}

/// Whether two strings hold the same text.
pub fn same_text(a: &str, b: &str) -> (r: bool)
    ensures
        r == (a@ == b@),
{
    same_chars(&chars_of(a), &chars_of(b))
}

/// Whether two character lists are equal.
pub fn same_chars(a: &[char], b: &[char]) -> (r: bool)
    ensures
        r == (a@ == b@),
{
    if a.len() != b.len() {
        return false;
    }
    let n: usize = a.len();
    for i in 0..n
        invariant
            n == a@.len(),
            n == b@.len(),
            forall|j: int| 0 <= j < i ==> a@[j] == b@[j],
    {
        if a[i] != b[i] {
            return false;
        }
    }
    assert(a@ =~= b@);
    true
}

/// `a` followed by `b`.
pub fn concat2(a: &str, b: &str) -> (r: String)
    ensures
        r@ == a@ + b@,
{
    let mut r = a.to_owned();
    r.append(b);
    r
}

/// Whether a character is white space.
pub fn white_space(c: char) -> (r: bool)
    ensures
        r == is_white_space(c),
{
    let n: u32 = c as u32;
    (0x9 <= n && n <= 0xD) || n == 0x20 || n == 0x85 || n == 0xA0 || n == 0x1680 || (0x2000 <= n
        && n <= 0x200A) || n == 0x2028 || n == 0x2029 || n == 0x202F || n == 0x205F || n == 0x3000
}

/// The text without white space at either end.
pub fn trim(s: &str) -> (r: String)
    ensures
        r@ == trimmed(s@),
{
    let cs = chars_of(s);
    let n: usize = cs.len();
    let mut from: usize = 0;
    assert(cs@.subrange(0, n as int) =~= cs@);
    while from < n && white_space(cs[from])
        invariant
            n == cs@.len(),
            from <= n,
            trim_start(cs@.subrange(from as int, n as int)) == trim_start(cs@),
        ensures
            n == cs@.len(),
            from <= n,
            trim_start(cs@) == cs@.subrange(from as int, n as int),
        decreases n - from,
    {
        assert(cs@.subrange(from as int, n as int).subrange(1, n - from) =~= cs@.subrange(
            from + 1,
            n as int,
        ));
        from += 1;
    }
    let mut to: usize = n;
    while to > from && white_space(cs[to - 1])
        invariant
            n == cs@.len(),
            from <= to <= n,
            trim_end(cs@.subrange(from as int, to as int)) == trim_end(
                cs@.subrange(from as int, n as int),
            ),
        ensures
            n == cs@.len(),
            from <= to <= n,
            cs@.subrange(from as int, to as int) == trim_end(cs@.subrange(from as int, n as int)),
        decreases to,
    {
        assert(cs@.subrange(from as int, to as int).drop_last() =~= cs@.subrange(
            from as int,
            to - 1,
        ));
        to -= 1;
    }
    text_between(&cs, from, to)
}

/// The text without the characters `c` at its end.
pub fn trim_end_char(s: &str, c: char) -> (r: String)
    ensures
        r@ == without_trailing(s@, c),
{
    let cs = chars_of(s);
    let mut to: usize = cs.len();
    assert(cs@.subrange(0, to as int) =~= cs@);
    while to > 0 && cs[to - 1] == c
        invariant
            to <= cs@.len(),
            without_trailing(cs@.subrange(0, to as int), c) == without_trailing(cs@, c),
        ensures
            to <= cs@.len(),
            cs@.subrange(0, to as int) == without_trailing(cs@, c),
        decreases to,
    {
        assert(cs@.subrange(0, to as int).drop_last() =~= cs@.subrange(0, to - 1));
        to -= 1;
    }
    text_between(&cs, 0, to)
}

/// An ASCII letter in lower case; any other character unchanged.
pub fn to_lower_char(c: char) -> (r: char)
    ensures
        r == lower_char(c),
{
    if 'A' <= c && c <= 'Z' {
        (c as u8 + 32) as char
    } else {
        c
    }
}

/// The text with its ASCII letters in lower case.
pub fn to_lower(s: &str) -> (r: String)
    ensures
        r@ == lower(s@),
{
    let cs = chars_of(s);
    let n: usize = cs.len();
    let mut r = String::new();
    assert(r@ =~= lower(cs@.take(0)));
    for i in 0..n
        invariant
            n == cs@.len(),
            r@ == lower(cs@.take(i as int)),
    {
        r.push(to_lower_char(cs[i]));
        assert(lower(cs@.take(i + 1)) =~= lower(cs@.take(i as int)).push(
            lower_char(cs@[i as int]),
        ));
    }
    assert(cs@.take(n as int) =~= cs@);
    r
}

/// Whether two texts are equal up to the case of ASCII letters.
pub fn same_text_ignoring_case(a: &str, b: &str) -> (r: bool)
    ensures
        r == (lower(a@) == lower(b@)),
{
    same_text(&to_lower(a), &to_lower(b))
}

/// Whether `p` stands at the start of `s`.
pub fn has_prefix(s: &str, p: &str) -> (r: bool)
    ensures
        r == p@.is_prefix_of(s@),
{
    let sc = chars_of(s);
    let pc = chars_of(p);
    let n: usize = pc.len();
    if n > sc.len() {
        return false;
    }
    for i in 0..n
        invariant
            n == pc@.len(),
            n <= sc@.len(),
            sc@ == s@,
            pc@ == p@,
            forall|j: int| 0 <= j < i ==> sc@[j] == pc@[j],
    {
        if sc[i] != pc[i] {
            assert(s@.subrange(0, n as int)[i as int] != p@[i as int]);
            return false;
        }
    }
    assert(p@ =~= s@.subrange(0, n as int));
    true
}

/// Whether `p` stands at the end of `s`.
pub fn has_suffix(s: &str, p: &str) -> (r: bool)
    ensures
        r == p@.is_suffix_of(s@),
{
    let sc = chars_of(s);
    let pc = chars_of(p);
    let n: usize = pc.len();
    if n > sc.len() {
        return false;
    }
    let total: usize = sc.len();
    let off: usize = total - n;
    for i in 0..n
        invariant
            n == pc@.len(),
            off + n == total,
            total == sc@.len(),
            sc@ == s@,
            pc@ == p@,
            forall|j: int| 0 <= j < i ==> sc@[off + j] == pc@[j],
    {
        if sc[off + i] != pc[i] {
            assert(s@.subrange(off as int, s@.len() as int)[i as int] != p@[i as int]);
            return false;
        }
    }
    assert(p@ =~= s@.subrange(off as int, s@.len() as int));
    true
}

/// `s` without `p` at its end, where `p` stands there.
pub open spec fn without_suffix(s: Seq<char>, p: Seq<char>) -> Option<Seq<char>> {
    if p.is_suffix_of(s) {
        Some(s.take(s.len() - p.len()))
    } else {
        None
    }
}

/// The text of an optional string slice.
pub open spec fn opt_str(o: Option<&str>) -> Option<Seq<char>> {
    match o {
        Some(s) => Some(s@),
        None => None,
    }
}

pub fn strip_suffix<'a>(s: &'a str, p: &str) -> (r: Option<&'a str>)
    ensures
        opt_str(r) == without_suffix(s@, p@),
{
    if has_suffix(s, p) {
        let keep: usize = chars_of(s).len() - chars_of(p).len();
        let r = s.substring_char(0, keep);
        assert(r@ =~= s@.take(keep as int));
        Some(r)
    } else {
        None
    }
}

/// Whether `c` occurs in `s`.
pub fn has_char(s: &str, c: char) -> (r: bool)
    ensures
        r == s@.contains(c),
{
    let cs = chars_of(s);
    let n: usize = cs.len();
    for i in 0..n
        invariant
            n == cs@.len(),
            cs@ == s@,
            forall|j: int| 0 <= j < i ==> cs@[j] != c,
    {
        if cs[i] == c {
            assert(s@[i as int] == c);
            return true;
        }
    }
    false
}

/// `n` in the given base.
fn digits_of(n: u128, base: u128) -> (r: String)
    requires
        2 <= base <= 16,
    ensures
        r@ == digits(n as nat, base as nat),
    decreases n,
{
    let d: u8 = (n % base) as u8;
    let c: char = if d < 10 {
        (48u8 + d) as char
    } else {
        (87u8 + d) as char
    };
    if n < base {
        assert(n % base == n) by (nonlinear_arith)
            requires
                n < base,
        ;
        let mut r = String::new();
        r.push(c);
        assert(r@ =~= seq![digit_char(n as int)]);
        r
    } else {
        assert(n / base < n) by (nonlinear_arith)
            requires
                n >= base,
                base >= 2,
        ;
        let mut r = digits_of(n / base, base);
        r.push(c);
        r
    }
}

/// `n` in decimal.
pub fn decimal_text(n: u128) -> (r: String)
    ensures
        r@ == decimal(n as nat),
{
    digits_of(n, 10)
}

/// `n` in lower-case hexadecimal, without leading zeros.
pub fn hex_text(n: u128) -> (r: String)
    ensures
        r@ == hexadecimal(n as nat),
{
    digits_of(n, 16)
}

/// Splitting yields at least one piece.
pub proof fn lemma_split_nonempty(s: Seq<char>, sep: char)
    ensures
        split_on(s, sep).len() >= 1,
    decreases s.len(),
{
    if s.len() > 0 {
        lemma_split_nonempty(s.drop_last(), sep);
    }
}

/// The pieces of `s` between the occurrences of `sep`.
pub fn split(s: &str, sep: char) -> (r: Vec<String>)
    ensures
        texts(r@) == split_on(s@, sep),
        r@.len() >= 1,
{
    let cs = chars_of(s);
    let n: usize = cs.len();
    let mut done: Vec<String> = Vec::new();
    let mut current = String::new();
    assert(texts(done@).push(current@) =~= split_on(cs@.take(0), sep)) by {
        assert(cs@.take(0) =~= Seq::empty());
        assert(current@ =~= cs@.take(0));
    }
    for i in 0..n
        invariant
            n == cs@.len(),
            texts(done@).push(current@) == split_on(cs@.take(i as int), sep),
    {
        let ghost before = split_on(cs@.take(i as int), sep);
        let ghost next = cs@.take(i + 1);
        assert(next.drop_last() =~= cs@.take(i as int));
        assert(before.drop_last() =~= texts(done@));
        if cs[i] == sep {
            let ghost old_done = done@;
            let ghost piece = current@;
            done.push(current);
            current = String::new();
            assert(texts(done@) =~= texts(old_done).push(piece));
            assert(current@ =~= Seq::<char>::empty());
        } else {
            current.push(cs[i]);
        }
    }
    assert(cs@.take(n as int) =~= cs@);
    let ghost old_done = done@;
    let ghost piece = current@;
    done.push(current);
    assert(texts(done@) =~= texts(old_done).push(piece));
    done
}

/// In lower case a text keeps its length; the letters from `A` to `Z` become
/// those from `a` to `z`, and every other character stays.
pub proof fn law_lower_case(s: Seq<char>, i: int)
    requires
        0 <= i < s.len(),
    ensures
        lower(s).len() == s.len(),
        0x41 <= s[i] as u32 <= 0x5a ==> lower(s)[i] as u32 == s[i] as u32 + 32,
        !(0x41 <= s[i] as u32 <= 0x5a) ==> lower(s)[i] == s[i],
{
}

/// What trimming leaves is one stretch of the text: only white space stands
/// outside it, and none at its ends.
pub proof fn law_trimmed_stretch(s: Seq<char>) -> (r: (int, int))
    ensures
        0 <= r.0 <= r.1 <= s.len(),
        trimmed(s) == s.subrange(r.0, r.1),
        forall|i: int| 0 <= i < r.0 || r.1 <= i < s.len() ==> is_white_space(#[trigger] s[i]),
        r.0 < r.1 ==> !is_white_space(s[r.0]) && !is_white_space(s[r.1 - 1]),
{
    let a = lemma_trim_start_at(s);
    let middle = trim_start(s);
    let b = lemma_trim_end_at(middle);
    assert(trimmed(s) =~= s.subrange(a, a + b));
    assert forall|i: int| 0 <= i < a || a + b <= i < s.len() implies is_white_space(
        #[trigger] s[i],
    ) by {
        if i >= a {
            assert(s[i] == middle[i - a]);
        }
    }
    if b > 0 {
        assert(middle[0] == s[a]);
        assert(middle[b - 1] == s[a + b - 1]);
    }
    (a, a + b)
}

proof fn lemma_trim_start_at(s: Seq<char>) -> (a: int)
    ensures
        0 <= a <= s.len(),
        trim_start(s) == s.skip(a),
        forall|i: int| 0 <= i < a ==> is_white_space(#[trigger] s[i]),
        a < s.len() ==> !is_white_space(s[a]),
    decreases s.len(),
{
    if s.len() > 0 && is_white_space(s[0]) {
        let rest = s.subrange(1, s.len() as int);
        let a = lemma_trim_start_at(rest);
        assert(rest.skip(a) =~= s.skip(a + 1));
        assert forall|i: int| 0 <= i < a + 1 implies is_white_space(#[trigger] s[i]) by {
            if i > 0 {
                assert(s[i] == rest[i - 1]);
            }
        }
        a + 1
    } else {
        assert(s.skip(0) =~= s);
        0
    }
}

proof fn lemma_trim_end_at(s: Seq<char>) -> (b: int)
    ensures
        0 <= b <= s.len(),
        trim_end(s) == s.take(b),
        forall|i: int| b <= i < s.len() ==> is_white_space(#[trigger] s[i]),
        b > 0 ==> !is_white_space(s[b - 1]),
    decreases s.len(),
{
    if s.len() > 0 && is_white_space(s.last()) {
        let rest = s.drop_last();
        let b = lemma_trim_end_at(rest);
        assert(rest.take(b) =~= s.take(b));
        assert forall|i: int| b <= i < s.len() implies is_white_space(#[trigger] s[i]) by {
            if i < s.len() - 1 {
                assert(s[i] == rest[i]);
            }
        }
        b
    } else {
        assert(s.take(s.len() as int) =~= s);
        s.len() as int
    }
}

/// Without the trailing characters `c`, a text is its longest front part that
/// does not end in one.
pub proof fn law_without_trailing(s: Seq<char>, c: char)
    ensures
        ({
            let r = without_trailing(s, c);
            &&& r.len() <= s.len()
            &&& r == s.take(r.len() as int)
            &&& r.len() > 0 ==> r.last() != c
            &&& forall|i: int| r.len() <= i < s.len() ==> #[trigger] s[i] == c
        }),
    decreases s.len(),
{
    if s.len() > 0 && s.last() == c {
        let rest = s.drop_last();
        law_without_trailing(rest, c);
        let r = without_trailing(s, c);
        assert(rest.take(r.len() as int) =~= s.take(r.len() as int));
        assert forall|i: int| r.len() <= i < s.len() implies #[trigger] s[i] == c by {
            if i < s.len() - 1 {
                assert(s[i] == rest[i]);
            }
        }
    } else {
        assert(s.take(s.len() as int) =~= s);
    }
}

/// Splitting a text gives pieces without the separator which, joined by it,
/// are the text again.
pub proof fn law_split_and_joined(s: Seq<char>, sep: char)
    ensures
        split_on(s, sep).len() >= 1,
        forall|i: int|
            0 <= i < split_on(s, sep).len() ==> !(#[trigger] split_on(s, sep)[i]).contains(sep),
        joined(split_on(s, sep), seq![sep]) == s,
    decreases s.len(),
{
    let parts = split_on(s, sep);
    if s.len() == 0 {
        assert(parts[0] =~= s);
    } else {
        let before = split_on(s.drop_last(), sep);
        law_split_and_joined(s.drop_last(), sep);
        if s.last() == sep {
            assert(parts.drop_last() =~= before);
            assert(joined(parts, seq![sep]) =~= s);
            assert forall|i: int| 0 <= i < parts.len() implies !(#[trigger] parts[i]).contains(
                sep,
            ) by {
                if i < before.len() {
                    assert(parts[i] == before[i]);
                }
            }
        } else {
            let piece = before.last().push(s.last());
            assert(parts.drop_last() =~= before.drop_last());
            assert forall|i: int| 0 <= i < parts.len() implies !(#[trigger] parts[i]).contains(
                sep,
            ) by {
                if i < before.len() - 1 {
                    assert(parts[i] == before[i]);
                } else {
                    assert(parts[i] == piece);
                    assert(!before[before.len() - 1].contains(sep));
                    if piece.contains(sep) {
                        let k = choose|k: int| 0 <= k < piece.len() && piece[k] == sep;
                        assert(k < before.last().len());
                        assert(before.last()[k] == sep);
                    }
                }
            }
            assert(joined(parts, seq![sep]) =~= joined(before, seq![sep]).push(s.last()));
            assert(s.drop_last().push(s.last()) =~= s);
        }
    }
}

/// The value of a row of digits.
pub open spec fn digits_value(s: Seq<char>, base: nat) -> nat
    decreases s.len(),
{
    if s.len() == 0 {
        0
    } else {
        let c = s.last() as u32;
        let digit = if c >= 0x61 {
            (c - 0x61 + 10) as nat
        } else {
            (c - 0x30) as nat
        };
        digits_value(s.drop_last(), base) * base + digit
    }
}

/// A number is written in the digits from `0` to `9` and, beyond base ten, the
/// letters from `a` on; it is the value of what is written, and none but
/// zero itself starts with a zero.
pub proof fn law_digits_have_their_value(n: nat, base: nat)
    requires
        2 <= base <= 16,
    ensures
        digits_value(digits(n, base), base) == n,
        digits(n, base).len() >= 1,
        n > 0 ==> digits(n, base)[0] as u32 != 0x30,
    decreases n,
{
    if n >= base {
        let front = n / base;
        assert(front < n) by (nonlinear_arith)
            requires
                n >= base,
                base >= 2,
                front == n / base,
        ;
        law_digits_have_their_value(front, base);
        let s = digits(n, base);
        assert(s.drop_last() =~= digits(front, base));
        vstd::arithmetic::div_mod::lemma_fundamental_div_mod(n as int, base as int);
        vstd::arithmetic::div_mod::lemma_mod_bound(n as int, base as int);
        lemma_digit((n % base) as int);
        assert(front * base == base * front) by (nonlinear_arith);
        assert(s[0] == digits(front, base)[0]);
        assert(front >= 1) by (nonlinear_arith)
            requires
                n >= base,
                base >= 2,
                front == n / base,
        ;
    } else {
        lemma_digit(n as int);
        let s = digits(n, base);
        assert(s.drop_last() =~= Seq::empty());
        assert(digits_value(s.drop_last(), base) * base == 0) by (nonlinear_arith)
            requires
                digits_value(s.drop_last(), base) == 0,
        ;
    }
}

proof fn lemma_digit(d: int)
    requires
        0 <= d < 16,
    ensures
        d < 10 ==> digit_char(d) as u32 == 0x30 + d,
        d >= 10 ==> digit_char(d) as u32 == 0x61 + d - 10,
{
}

/// What stands behind a separator, up to the end or the next one, is a piece
/// of its own behind the pieces in front.
pub proof fn law_split_at_the_last(a: Seq<char>, b: Seq<char>, sep: char)
    requires
        !b.contains(sep),
    ensures
        split_on(b, sep) == seq![b],
        split_on(a.push(sep) + b, sep) == split_on(a, sep).push(b),
    decreases b.len(),
{
    let whole = a.push(sep) + b;
    if b.len() == 0 {
        assert(b =~= Seq::empty());
        assert(whole =~= a.push(sep));
        assert(whole.drop_last() =~= a);
        assert(split_on(b, sep) =~= seq![b]);
    } else {
        let less = b.drop_last();
        assert forall|k: int| 0 <= k < less.len() implies less[k] != sep by {
            assert(b[k] == less[k]);
            assert(b.contains(b[k]));
        }
        assert(b.contains(b.last()));
        law_split_at_the_last(a, less, sep);
        assert(whole.drop_last() =~= a.push(sep) + less);
        assert(whole.last() == b.last());
        assert(less.push(b.last()) =~= b);
        assert(split_on(b, sep) =~= seq![b]);
        assert(split_on(whole, sep) =~= split_on(a, sep).push(b));
    }
}

} // verus!

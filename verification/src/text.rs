//! Text helpers over `str`, stated on the sequence of characters of a string.

use vstd::prelude::*;
use vstd::string::*;
use vstd::utf8::*;

verus! {

/// `needle` stands in `hay`, starting at position `at`.
pub open spec fn occurs_at(hay: Seq<char>, needle: Seq<char>, at: int) -> bool {
    &&& 0 <= at
    &&& at + needle.len() <= hay.len()
    &&& hay.subrange(at, at + needle.len()) == needle
}

/// `needle` stands somewhere in `hay`.
pub open spec fn occurs(hay: Seq<char>, needle: Seq<char>) -> bool {
    exists|at: int| #[trigger] occurs_at(hay, needle, at)
}

/// `s` is `left`, then `c`, then `right`, and this is the first `c` in `s`.
pub open spec fn splits(s: Seq<char>, c: char, left: Seq<char>, right: Seq<char>) -> bool {
    s == left + seq![c] + right && !left.contains(c)
}

/// A text is split at the first occurrence of a character in one way only.
pub proof fn lemma_split_is_unique(
    s: Seq<char>,
    c: char,
    left: Seq<char>,
    right: Seq<char>,
    left2: Seq<char>,
    right2: Seq<char>,
)
    requires
        splits(s, c, left, right),
        splits(s, c, left2, right2),
    ensures
        left == left2,
        right == right2,
{
    assert(s[left.len() as int] == c);
    assert(s[left2.len() as int] == c);
    if left.len() < left2.len() {
        assert(left2[left.len() as int] == s[left.len() as int]);
    }
    if left2.len() < left.len() {
        assert(left[left2.len() as int] == s[left2.len() as int]);
    }
    assert(left =~= s.subrange(0, left.len() as int));
    assert(left2 =~= s.subrange(0, left2.len() as int));
    assert(right =~= s.subrange(left.len() as int + 1, s.len() as int));
    assert(right2 =~= s.subrange(left2.len() as int + 1, s.len() as int));
}

/// The pieces of `s` between the separators `c`, in order; a text without `c` is one piece.
pub open spec fn pieces(s: Seq<char>, c: char) -> Seq<Seq<char>>
    decreases s.len(),
{
    if s.len() == 0 {
        seq![s]
    } else {
        let rest = pieces(s.drop_last(), c);
        if s.last() == c {
            rest.push(Seq::empty())
        } else {
            rest.update(rest.len() - 1, rest.last().push(s.last()))
        }
    }
}

/// The strings of a sequence, each by its characters.
pub open spec fn texts(v: Seq<String>) -> Seq<Seq<char>> {
    v.map_values(|s: String| s@)
}

/// An optional string by its characters.
pub open spec fn opt_text(o: Option<String>) -> Option<Seq<char>> {
    match o {
        Some(s) => Some(s@),
        None => None,
    }
}

/// An optional borrowed string by its characters.
pub open spec fn opt_str(o: Option<&str>) -> Option<Seq<char>> {
    match o {
        Some(s) => Some(s@),
        None => None,
    }
}

/// The number of bytes of `s` in UTF-8.
pub open spec fn byte_len(s: Seq<char>) -> nat {
    encode_utf8(s).len()
}

/// Two texts with the same UTF-8 bytes are the same text.
pub proof fn lemma_bytes_determine_text(a: Seq<char>, b: Seq<char>)
    ensures
        encode_utf8(a) == encode_utf8(b) <==> a == b,
{
    encode_utf8_decode_utf8(a);
    encode_utf8_decode_utf8(b);
}

/// The message of the error that bytes give which are no UTF-8.
pub uninterp spec fn utf8_error(bytes: Seq<u8>) -> Seq<char>;

/// `String::from_utf8`: the text with these bytes, or the error's message where they are no UTF-8.
/// Only the bytes decide what the message says.
#[verifier::external_body]
fn string_of(bytes: Vec<u8>) -> (r: Result<String, String>)
    ensures
        match r {
            Ok(s) => valid_utf8(bytes@) && s@ == decode_utf8(bytes@),
            Err(m) => !valid_utf8(bytes@) && m@ == utf8_error(bytes@),
        },
{
    String::from_utf8(bytes).map_err(|e| e.to_string())
}

/// The text with these bytes, or a message where they are no UTF-8.
pub fn text_of(bytes: Vec<u8>) -> (r: Result<String, String>)
    ensures
        match r {
            Ok(s) => valid_utf8(bytes@) && encode_utf8(s@) == bytes@,
            Err(m) => !valid_utf8(bytes@) && m@ == utf8_error(bytes@),
        },
{
    proof {
        if valid_utf8(bytes@) {
            decode_utf8_encode_utf8(bytes@);
        }
    }
    string_of(bytes)
}

/// Whether two texts are equal.
pub fn same(a: &str, b: &str) -> (r: bool)
    ensures
        r == (a@ == b@),
{
    let x = a.as_bytes();
    let y = b.as_bytes();
    proof {
        lemma_bytes_determine_text(a@, b@);
    }
    if x.len() != y.len() {
        return false;
    }
    let mut i: usize = 0;
    while i < x.len()
        invariant
            i <= x@.len(),
            x@.len() == y@.len(),
            x@ == encode_utf8(a@),
            y@ == encode_utf8(b@),
            encode_utf8(a@) == encode_utf8(b@) <==> a@ == b@,
            forall|j: int| 0 <= j < i ==> x@[j] == y@[j],
        decreases x@.len() - i,
    {
        if x[i] != y[i] {
            assert(x@[i as int] != y@[i as int]);
            return false;
        }
        i = i + 1;
    }
    assert(x@ =~= y@);
    true
}

/// The characters of a text.
pub fn chars_of(s: &str) -> (r: Vec<char>)
    ensures
        r@ == s@,
{
    let mut out: Vec<char> = Vec::new();
    for c in it: s.chars()
        invariant
            out@ == it.seq().take(it.index()),
            it.seq() == s@,
    {
        out.push(c);
    }
    out
}

/// Whether `s` starts with `prefix`.
pub fn starts_with(s: &str, prefix: &str) -> (r: bool)
    ensures
        r == prefix@.is_prefix_of(s@),
{
    let hay = chars_of(s);
    let needle = chars_of(prefix);
    if needle.len() > hay.len() {
        return false;
    }
    matches_at(&hay, &needle, 0)
}

/// Whether `s` ends with `suffix`.
pub fn ends_with(s: &str, suffix: &str) -> (r: bool)
    ensures
        r == suffix@.is_suffix_of(s@),
{
    let hay = chars_of(s);
    let needle = chars_of(suffix);
    if needle.len() > hay.len() {
        return false;
    }
    matches_at(&hay, &needle, hay.len() - needle.len())
}

/// Whether `needle` stands in `hay` at position `at`.
fn matches_at(hay: &Vec<char>, needle: &Vec<char>, at: usize) -> (r: bool)
    requires
        at + needle@.len() <= hay@.len(),
    ensures
        r == occurs_at(hay@, needle@, at as int),
{
    let limit: usize = hay.len();
    let mut i: usize = 0;
    while i < needle.len()
        invariant
            i <= needle@.len(),
            at + needle@.len() <= hay@.len(),
            limit == hay@.len(),
            forall|j: int| 0 <= j < i ==> hay@[at + j] == needle@[j],
        decreases needle@.len() - i,
    {
        if hay[at + i] != needle[i] {
            proof {
                let part = hay@.subrange(at as int, at + needle@.len());
                assert(part[i as int] == hay@[at + i]);
            }
            return false;
        }
        i = i + 1;
    }
    assert(hay@.subrange(at as int, at + needle@.len()) =~= needle@);
    true
}

/// Whether `part` stands somewhere in `s`.
pub fn contains(s: &str, part: &str) -> (r: bool)
    ensures
        r == occurs(s@, part@),
{
    let hay = chars_of(s);
    let needle = chars_of(part);
    if needle.len() > hay.len() {
        return false;
    }
    let last: usize = hay.len() - needle.len();
    let mut at: usize = 0;
    loop
        invariant
            at <= last,
            hay@ == s@,
            needle@ == part@,
            last + needle@.len() == hay@.len(),
            forall|k: int| 0 <= k < at ==> !occurs_at(hay@, needle@, k),
        decreases last - at,
    {
        if matches_at(&hay, &needle, at) {
            assert(occurs_at(s@, part@, at as int));
            return true;
        }
        if at == last {
            return false;
        }
        at = at + 1;
    }
}

/// The two parts of `s` around the first `sep`, or nothing where `sep` does not occur.
pub fn split_once(s: &str, sep: char) -> (r: Option<(String, String)>)
    ensures
        match r {
            Some((left, right)) => splits(s@, sep, left@, right@),
            None => !s@.contains(sep),
        },
{
    let hay = chars_of(s);
    let mut at: usize = 0;
    while at < hay.len()
        invariant
            at <= hay@.len(),
            hay@ == s@,
            forall|k: int| 0 <= k < at ==> hay@[k] != sep,
        decreases hay@.len() - at,
    {
        if hay[at] == sep {
            let left = s.substring_char(0, at).to_string();
            let right = s.substring_char(at + 1, hay.len()).to_string();
            assert(s@ =~= left@ + seq![sep] + right@);
            assert forall|k: int| 0 <= k < left@.len() implies left@[k] != sep by {
                assert(left@[k] == hay@[k]);
            }
            return Some((left, right));
        }
        at = at + 1;
    }
    None
}

/// The pieces of `s` between the separators `sep`.
pub fn split(s: &str, sep: char) -> (r: Vec<String>)
    ensures
        texts(r@) == pieces(s@, sep),
{
    let hay = chars_of(s);
    let mut out: Vec<String> = Vec::new();
    let mut start: usize = 0;
    let mut at: usize = 0;
    assert(s@.subrange(0, 0) =~= s@.take(0));
    assert(texts(out@).push(s@.subrange(0, 0)) =~= pieces(s@.take(0), sep));
    while at < hay.len()
        invariant
            start <= at <= hay@.len(),
            hay@ == s@,
            texts(out@).push(s@.subrange(start as int, at as int)) == pieces(s@.take(at as int), sep),
        decreases hay@.len() - at,
    {
        let ghost before = texts(out@);
        let ghost current = s@.subrange(start as int, at as int);
        let ghost next = s@.take(at + 1);
        assert(next.drop_last() =~= s@.take(at as int));
        assert(next.last() == s@[at as int]);
        if hay[at] == sep {
            out.push(s.substring_char(start, at).to_string());
            start = at + 1;
            assert(texts(out@) =~= before.push(current));
            assert(s@.subrange(start as int, at + 1) =~= Seq::<char>::empty());
        } else {
            assert(s@.subrange(start as int, at + 1) =~= current.push(s@[at as int]));
            assert(before.push(current).update(
                before.len() as int,
                current.push(s@[at as int]),
            ) =~= before.push(current.push(s@[at as int])));
        }
        at = at + 1;
    }
    let ghost before = texts(out@);
    out.push(s.substring_char(start, hay.len()).to_string());
    assert(s@.take(hay@.len() as int) =~= s@);
    assert(texts(out@) =~= before.push(s@.subrange(start as int, hay@.len() as int)));
    out
}

/// `a` followed by `b`.
pub fn concat(a: &str, b: &str) -> (r: String)
    ensures
        r@ == a@ + b@,
{
    a.to_string().concat(b)
}

/// `a`, `sep` and `b`, one after the other.
pub fn join(a: &str, sep: &str, b: &str) -> (r: String)
    ensures
        r@ == a@ + sep@ + b@,
{
    a.to_string().concat(sep).concat(b)
}

/// A copy of an optional string.
pub fn copy_opt(o: &Option<String>) -> (r: Option<String>)
    ensures
        r == *o,
        opt_text(r) == opt_text(*o),
{
    match o {
        Some(s) => Some(s.clone()),
        None => None,
    }
}

/// An owned copy of an optional borrowed string.
pub fn own_opt(o: Option<&str>) -> (r: Option<String>)
    ensures
        opt_text(r) == opt_str(o),
{
    match o {
        Some(s) => Some(s.to_string()),
        None => None,
    }
}

/// The decimal digit with value `d`.
pub open spec fn digit(d: int) -> char {
    if d == 0 { '0' } else if d == 1 { '1' } else if d == 2 { '2' } else if d == 3 { '3' }
    else if d == 4 { '4' } else if d == 5 { '5' } else if d == 6 { '6' } else if d == 7 { '7' }
    else if d == 8 { '8' } else { '9' }
}

/// `n` written in decimal, without leading zeros.
pub open spec fn decimal(n: nat) -> Seq<char>
    decreases n,
{
    if n < 10 {
        seq![digit(n as int)]
    } else {
        decimal(n / 10).push(digit((n % 10) as int))
    }
}

fn digit_text(d: u64) -> (r: &'static str)
    requires
        d < 10,
    ensures
        r@ == seq![digit(d as int)],
{
    proof {
        reveal_strlit("0");
        reveal_strlit("1");
        reveal_strlit("2");
        reveal_strlit("3");
        reveal_strlit("4");
        reveal_strlit("5");
        reveal_strlit("6");
        reveal_strlit("7");
        reveal_strlit("8");
        reveal_strlit("9");
    }
    let r = if d == 0 { "0" } else if d == 1 { "1" } else if d == 2 { "2" } else if d == 3 { "3" }
    else if d == 4 { "4" } else if d == 5 { "5" } else if d == 6 { "6" } else if d == 7 { "7" }
    else if d == 8 { "8" } else { "9" };
    assert(r@ =~= seq![digit(d as int)]);
    r
}

/// A whole number in decimal digits, with a minus sign where it is negative.
pub open spec fn signed_decimal(n: int) -> Seq<char> {
    if n < 0 {
        "-"@ + decimal((-n) as nat)
    } else {
        decimal(n as nat)
    }
}

/// `n` in decimal.
pub fn decimal_text(n: u64) -> (r: String)
    ensures
        r@ == decimal(n as nat),
    decreases n,
{
    if n < 10 {
        digit_text(n).to_string()
    } else {
        let head = decimal_text(n / 10);
        let last = digit_text(n % 10);
        let r = head.concat(last);
        assert(r@ =~= decimal((n / 10) as nat).push(digit((n % 10) as int)));
        r
    }
}

/// The value of a decimal digit.
pub open spec fn digit_value(c: char) -> Option<nat> {
    if '0' <= c <= '9' {
        Some((c as int - '0' as int) as nat)
    } else {
        None
    }
}

/// The number that a non-empty run of decimal digits writes.
pub open spec fn digits_value(s: Seq<char>) -> Option<nat>
    decreases s.len(),
{
    if s.len() == 0 {
        None
    } else if s.len() == 1 {
        digit_value(s[0])
    } else {
        match (digits_value(s.drop_last()), digit_value(s.last())) {
            (Some(head), Some(d)) => Some(head * 10 + d),
            _ => None,
        }
    }
}

/// The number that `s` writes: decimal digits, with an optional `+` in front.
pub open spec fn number_value(s: Seq<char>) -> Option<nat> {
    if s.len() > 0 && s[0] == '+' {
        digits_value(s.drop_first())
    } else {
        digits_value(s)
    }
}

/// A longer run of digits that starts with `s` writes a number no smaller than `s` does.
proof fn lemma_digits_grow(s: Seq<char>, n: int)
    requires
        0 < n <= s.len(),
    ensures
        digits_value(s) is Some ==> digits_value(s.take(n)) is Some && digits_value(s.take(n))->0
            <= digits_value(s)->0,
    decreases s.len() - n,
{
    if n == s.len() {
        assert(s.take(n) =~= s);
    } else {
        lemma_digits_grow(s, n + 1);
        assert(s.take(n + 1).drop_last() =~= s.take(n));
    }
}

/// The number that `s` writes, where it is at most `max`.
pub fn parse_number(s: &str, max: u64) -> (r: Option<u64>)
    ensures
        match r {
            Some(n) => number_value(s@) == Some(n as nat) && n <= max,
            None => number_value(s@) is None || number_value(s@)->0 > max,
        },
{
    let all = chars_of(s);
    let start: usize = if all.len() > 0 && all[0] == '+' { 1 } else { 0 };
    let ghost run = s@.subrange(start as int, s@.len() as int);
    proof {
        if start == 1 {
            assert(run =~= s@.drop_first());
        } else {
            assert(run =~= s@);
        }
    }
    if start == all.len() {
        return None;
    }
    let mut value: u64 = 0;
    let mut at: usize = start;
    while at < all.len()
        invariant
            start <= at <= all@.len(),
            start < all@.len(),
            all@ == s@,
            run == s@.subrange(start as int, s@.len() as int),
            number_value(s@) == digits_value(run),
            at > start ==> digits_value(run.take(at - start)) == Some(value as nat),
            at == start ==> value == 0,
            value <= max,
        decreases all@.len() - at,
    {
        let c = all[at];
        let ghost n = at - start;
        proof {
            assert(run.take(n + 1).drop_last() =~= run.take(n));
            assert(run.take(n + 1).last() == c);
            lemma_digits_grow(run, n + 1);
        }
        if !('0' <= c && c <= '9') {
            return None;
        }
        let d: u64 = (c as u64) - ('0' as u64);
        if value > max / 10 {
            assert(value * 10 + d > max);
            return None;
        }
        if d > max || value * 10 > max - d {
            return None;
        }
        value = value * 10 + d;
        at = at + 1;
    }
    assert(run.take(all@.len() - start) =~= run);
    Some(value)
}

/// A number that is written in decimal reads as that number.
pub proof fn written_number_is_read(n: nat)
    ensures
        digits_value(decimal(n)) == Some(n),
        number_value(decimal(n)) == Some(n),
        number_value("+"@ + decimal(n)) == Some(n),
{
    lemma_decimal_read(n);
    reveal_strlit("+");
    assert(("+"@ + decimal(n)).drop_first() =~= decimal(n));
    assert(digit_value('+') is None);
    assert(digit_value(decimal(n)[0]) is Some);
}

/// The digits of a number write it.
proof fn lemma_decimal_read(n: nat)
    ensures
        decimal(n).len() > 0,
        digits_value(decimal(n)) == Some(n),
        digit_value(decimal(n)[0]) is Some,
    decreases n,
{
    let d = (n % 10) as int;
    assert(0 <= d < 10);
    assert(digit_value(digit(d)) == Some(d as nat));
    if n >= 10 {
        lemma_decimal_read(n / 10);
        let s = decimal(n);
        assert(s.drop_last() =~= decimal(n / 10));
        assert(s.last() == digit(d));
        assert(s[0] == decimal(n / 10)[0]);
        assert(n == (n / 10) * 10 + n % 10);
    } else {
        assert(digit(n as int) == decimal(n)[0]);
    }
}

/// The pieces of a text, put together again with the separators between, are the text, and no piece
/// holds a separator.
pub proof fn pieces_make_up_the_text(s: Seq<char>, c: char, i: int)
    ensures
        pieces(s, c).len() > 0,
        0 <= i < pieces(s, c).len() ==> !pieces(s, c)[i].contains(c),
        pieces(s, c).drop_first().fold_left(
            pieces(s, c)[0],
            |whole: Seq<char>, piece: Seq<char>| whole + seq![c] + piece,
        ) == s,
    decreases s.len(),
{
    let glue = |whole: Seq<char>, piece: Seq<char>| whole + seq![c] + piece;
    let all = pieces(s, c);
    if s.len() == 0 {
        assert(all.drop_first() =~= Seq::<Seq<char>>::empty());
    } else {
        let rest = pieces(s.drop_last(), c);
        pieces_make_up_the_text(s.drop_last(), c, i);
        pieces_make_up_the_text(s.drop_last(), c, rest.len() - 1);
        assert(s.drop_last().push(s.last()) =~= s);
        if s.last() == c {
            assert(all.drop_first() =~= rest.drop_first().push(Seq::empty()));
            let tail = all.drop_first();
            assert(tail.drop_last() =~= rest.drop_first());
            assert(s.drop_last() + seq![c] + Seq::<char>::empty() =~= s);
        } else {
            let piece = rest.last().push(s.last());
            assert(!piece.contains(c)) by {
                crate::table::lemma_push_contains(rest.last(), s.last(), c);
            }
            if rest.len() == 1 {
                assert(all.drop_first() =~= Seq::<Seq<char>>::empty());
                assert(rest.drop_first() =~= Seq::<Seq<char>>::empty());
            } else {
                let old_tail = rest.drop_first();
                let tail = all.drop_first();
                assert(tail.drop_last() =~= old_tail.drop_last());
                assert(tail.last() == piece);
                assert(all[0] == rest[0]);
                let whole = old_tail.drop_last().fold_left(rest[0], glue);
                assert(whole + seq![c] + piece =~= (whole + seq![c] + rest.last()).push(s.last()));
            }
        }
    }
}

} // verus!

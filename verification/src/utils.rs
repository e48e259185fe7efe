//! Which channels are cached, and how large payloads are.

use regex::Regex;
use vstd::prelude::*;
use vstd::string::*;

use crate::json::{Json, JsonView};
use crate::model::views;
use crate::text::{byte_len, chars_of, occurs, occurs_at};

verus! {

/// Whether a text holds a match of a regular expression; none where the expression is not valid.
pub uninterp spec fn regex_match(pattern: Seq<char>, text: Seq<char>) -> Option<bool>;

/// A character that stands for itself in a regular expression.
pub open spec fn plain_char(c: char) -> bool {
    'a' <= c <= 'z' || c == '-'
}

/// `regex::Regex::new` and `regex::Regex::is_match`: whether the text holds a match of the
/// expression, anywhere. An expression of letters and hyphens, followed by `.*`, matches where the
/// letters and hyphens occur.
#[verifier::external_body]
fn regex_is_match(pattern: &str, text: &str) -> (r: Option<bool>)
    ensures
        r == regex_match(pattern@, text@),
        forall|word: Seq<char>|
            #![trigger occurs(text@, word)]
            pattern@ == word + seq!['.', '*'] && word.len() <= 100 && (forall|i: int|
                0 <= i < word.len() ==> plain_char(#[trigger] word[i])) ==> r == Some(
                occurs(text@, word),
            ),
{
    Regex::new(pattern).ok().map(|regex| regex.is_match(text))
}

/// A pattern in which each star stands for any text, as a regular expression.
pub open spec fn widened(pattern: Seq<char>) -> Seq<char>
    decreases pattern.len(),
{
    if pattern.len() == 0 {
        Seq::empty()
    } else {
        let rest = widened(pattern.drop_last());
        if pattern.last() == '*' {
            rest.push('.').push('*')
        } else {
            rest.push(pattern.last())
        }
    }
}

/// A pattern in which each star stands for any text, as a regular expression.
fn widen(pattern: &str) -> (r: String)
    ensures
        r@ == widened(pattern@),
{
    let chars = chars_of(pattern);
    let mut r = String::new();
    let mut i: usize = 0;
    assert(chars@.take(0) =~= Seq::<char>::empty());
    proof {
        reveal_strlit("");
    }
    assert(r@ =~= Seq::<char>::empty());
    while i < chars.len()
        invariant
            i <= chars@.len(),
            chars@ == pattern@,
            r@ == widened(chars@.take(i as int)),
        decreases chars@.len() - i,
    {
        proof {
            let next = chars@.take(i + 1);
            assert(next.drop_last() =~= chars@.take(i as int));
            assert(next.last() == chars@[i as int]);
        }
        if chars[i] == '*' {
            r.append(".*");
        } else {
            let piece = pattern.substring_char(i, i + 1);
            assert(piece@ =~= seq![chars@[i as int]]);
            r.append(piece);
        }
        proof {
            reveal_strlit(".*");
            assert(r@ =~= widened(chars@.take(i + 1)));
        }
        i = i + 1;
    }
    assert(chars@.take(i as int) =~= chars@);
    r
}

/// A pattern of letters and hyphens with one star at its end is widened to them and `.*`.
proof fn lemma_widened_prefix(word: Seq<char>)
    requires
        forall|i: int| 0 <= i < word.len() ==> plain_char(#[trigger] word[i]),
    ensures
        widened(word) == word,
        widened(word.push('*')) == word + seq!['.', '*'],
    decreases word.len(),
{
    if word.len() > 0 {
        lemma_widened_prefix(word.drop_last());
        assert(word.drop_last().push(word.last()) =~= word);
        assert(plain_char(word[word.len() - 1]));
    }
    assert(widened(word) =~= word);
    assert(word.push('*').last() == '*');
    assert(word.push('*').drop_last() =~= word);
    assert(widened(word.push('*')) =~= word + seq!['.', '*']);
}

/// Where a text occurs, its end occurs too.
proof fn lemma_end_occurs(text: Seq<char>, whole: Seq<char>, start: Seq<char>, end: Seq<char>)
    requires
        whole =~= start + end,
        occurs(text, whole),
    ensures
        occurs(text, end),
{
    let at = choose|at: int| #[trigger] occurs_at(text, whole, at);
    let k = at + start.len();
    assert(text.subrange(k, k + end.len()) =~= end) by {
        assert forall|i: int| 0 <= i < end.len() implies text.subrange(k, k + end.len())[i]
            == end[i] by {
            assert(text.subrange(at, at + whole.len())[start.len() + i] == whole[start.len() + i]);
        }
    }
    assert(occurs_at(text, end, k));
}

/// Whether a text holds what stands before the star of a pattern.
fn pattern_occurs(pattern: &str, text: &str, Ghost(word): Ghost<Seq<char>>) -> (r: bool)
    requires
        pattern@ =~= word.push('*'),
        word.len() <= 100,
        forall|i: int| 0 <= i < word.len() ==> plain_char(#[trigger] word[i]),
    ensures
        r == occurs(text@, word),
{
    proof {
        lemma_widened_prefix(word);
        assert(pattern@ == word.push('*'));
    }
    let expression = widen(pattern);
    match regex_is_match(expression.as_str(), text) {
        Some(found) => found,
        None => false,
    }
}

/// Whether the last event on a channel is cached: that is where `cache-` occurs in its name.
pub fn is_cache_channel(channel: &str) -> (r: bool)
    ensures
        r == occurs(channel@, "cache-"@),
{
    proof {
        reveal_strlit("cache-*");
        reveal_strlit("cache-");
        reveal_strlit("private-cache-*");
        reveal_strlit("private-cache-");
        reveal_strlit("private-");
        reveal_strlit("private-encrypted-cache-*");
        reveal_strlit("private-encrypted-cache-");
        reveal_strlit("private-encrypted-");
        reveal_strlit("presence-cache-*");
        reveal_strlit("presence-cache-");
        reveal_strlit("presence-");
        if occurs(channel@, "private-cache-"@) {
            lemma_end_occurs(channel@, "private-cache-"@, "private-"@, "cache-"@);
        }
        if occurs(channel@, "private-encrypted-cache-"@) {
            lemma_end_occurs(
                channel@,
                "private-encrypted-cache-"@,
                "private-encrypted-"@,
                "cache-"@,
            );
        }
        if occurs(channel@, "presence-cache-"@) {
            lemma_end_occurs(channel@, "presence-cache-"@, "presence-"@, "cache-"@);
        }
    }
    let mut ok = false;
    if pattern_occurs("cache-*", channel, Ghost("cache-"@)) {
        ok = true;
    }
    if pattern_occurs("private-cache-*", channel, Ghost("private-cache-"@)) {
        ok = true;
    }
    if pattern_occurs("private-encrypted-cache-*", channel, Ghost("private-encrypted-cache-"@)) {
        ok = true;
    }
    if pattern_occurs("presence-cache-*", channel, Ghost("presence-cache-"@)) {
        ok = true;
    }
    ok
}

/// How many bytes texts have together.
pub open spec fn total_bytes(parts: Seq<Seq<char>>) -> nat
    decreases parts.len(),
{
    if parts.len() == 0 {
        0
    } else {
        total_bytes(parts.drop_last()) + byte_len(parts.last())
    }
}

/// The first texts of a sequence have no more bytes than all of them.
proof fn lemma_bytes_grow(parts: Seq<Seq<char>>, n: int)
    requires
        0 <= n <= parts.len(),
    ensures
        total_bytes(parts.take(n)) <= total_bytes(parts),
    decreases parts.len() - n,
{
    if n == parts.len() {
        assert(parts.take(n) =~= parts);
    } else {
        lemma_bytes_grow(parts, n + 1);
        assert(parts.take(n + 1).drop_last() =~= parts.take(n));
    }
}

/// Texts by their characters.
pub open spec fn str_texts(data: Seq<&str>) -> Seq<Seq<char>> {
    data.map_values(|s: &str| s@)
}

/// How many bytes texts have together.
pub fn data_to_bytes(data: &Vec<&str>) -> (r: usize)
    requires
        total_bytes(str_texts(data@)) <= usize::MAX,
    ensures
        r == total_bytes(str_texts(data@)),
{
    let ghost parts = str_texts(data@);
    let mut total: usize = 0;
    let mut i: usize = 0;
    assert(parts.take(0) =~= Seq::<Seq<char>>::empty());
    while i < data.len()
        invariant
            i <= data@.len(),
            parts == str_texts(data@),
            total_bytes(parts) <= usize::MAX,
            total == total_bytes(parts.take(i as int)),
        decreases data@.len() - i,
    {
        proof {
            assert(parts.take(i + 1).drop_last() =~= parts.take(i as int));
            assert(parts.take(i + 1).last() == data@[i as int]@);
            lemma_bytes_grow(parts, i + 1);
        }
        let bytes = data[i].as_bytes();
        total = total + bytes.len();
        i = i + 1;
    }
    assert(parts.take(i as int) =~= parts);
    total
}

/// What is counted of JSON values: the text of a string, and the JSON text of any other value.
pub open spec fn payloads(data: Seq<JsonView>) -> Seq<Seq<char>> {
    data.map_values(|v: JsonView| v.payload())
}

/// How many bytes JSON values have together.
pub fn data_to_bytes_flexible(data: &Vec<Json>) -> (r: usize)
    requires
        total_bytes(payloads(views(data@))) <= usize::MAX,
    ensures
        r == total_bytes(payloads(views(data@))),
{
    let ghost parts = payloads(views(data@));
    let mut total: usize = 0;
    let mut i: usize = 0;
    assert(parts.take(0) =~= Seq::<Seq<char>>::empty());
    while i < data.len()
        invariant
            i <= data@.len(),
            parts == payloads(views(data@)),
            total_bytes(parts) <= usize::MAX,
            total == total_bytes(parts.take(i as int)),
        decreases data@.len() - i,
    {
        let text = data[i].payload();
        proof {
            assert(parts.take(i + 1).drop_last() =~= parts.take(i as int));
            assert(parts.take(i + 1).last() == text@);
            lemma_bytes_grow(parts, i + 1);
        }
        let bytes = text.as_str().as_bytes();
        total = total + bytes.len();
        i = i + 1;
    }
    assert(parts.take(i as int) =~= parts);
    total
}

/// Texts have together as many bytes as each of them has, added up. Of JSON values the text of a
/// string counts, without quotes, and of any other value its JSON text.
pub proof fn bytes_add_up(parts: Seq<Seq<char>>, data: Seq<JsonView>, i: int)
    requires
        0 <= i < data.len(),
    ensures
        total_bytes(parts) == parts.fold_left(
            0nat,
            |n: nat, part: Seq<char>| n + vstd::utf8::encode_utf8(part).len(),
        ),
        payloads(data).len() == data.len(),
        payloads(data)[i] == match data[i] {
            JsonView::Str(s) => s,
            other => crate::json::json_text(other),
        },
    decreases parts.len(),
{
    if parts.len() > 0 {
        bytes_add_up(parts.drop_last(), data, i);
    }
}

/// A pattern without stars stands for itself, and of two patterns that are joined each is widened on
/// its own.
pub proof fn patterns_are_widened_star_by_star(left: Seq<char>, right: Seq<char>)
    ensures
        widened(left + right) == widened(left) + widened(right),
        widened(seq!['*']) == seq!['.', '*'],
        !left.contains('*') ==> widened(left) == left,
    decreases left.len() + right.len(),
{
    reveal_with_fuel(widened, 2);
    assert(seq!['*'].drop_last() =~= Seq::<char>::empty());
    assert(widened(seq!['*']) =~= seq!['.', '*']);
    if right.len() > 0 {
        patterns_are_widened_star_by_star(left, right.drop_last());
        assert((left + right).drop_last() =~= left + right.drop_last());
        assert((left + right).last() == right.last());
        let a = widened(left);
        let b = widened(right.drop_last());
        assert((a + b).push('.').push('*') =~= a + b.push('.').push('*'));
        assert((a + b).push(right.last()) =~= a + b.push(right.last()));
    } else {
        assert(left + right =~= left);
        assert(widened(left) + widened(right) =~= widened(left));
    }
    if !left.contains('*') && left.len() > 0 {
        let rest = left.drop_last();
        assert(left[left.len() - 1] == left.last());
        if rest.contains('*') {
            let k = choose|k: int| 0 <= k < rest.len() && rest[k] == '*';
            assert(left[k] == '*');
        }
        if left.len() + right.len() > rest.len() {
            patterns_are_widened_star_by_star(rest, Seq::empty());
        }
        assert(rest.push(left.last()) =~= left);
    }
}

} // verus!

use vstd::prelude::*;
use vstd::string::{StringExecFns, StringSliceAdditionalSpecFns};
use vstd::utf8::{decode_utf8, encode_utf8, encode_utf8_decode_utf8};

verus! {

/// `s` cut to at most `n` bytes of UTF-8: kept
/// whole when it fits, else its first `n - 1` bytes (none when `n` is 0)
/// followed by an ellipsis.
pub open spec fn truncated(s: &str, n: usize) -> Seq<char> {
    if s.len() <= n {
        s@
    } else {
        decode_utf8(s.spec_bytes().take(if n == 0 { 0 } else { n - 1 })) + seq!['\u{2026}']
    }
}

/// Cuts `s` to fit `n` bytes. The cut must fall on a character boundary.
pub fn truncate(s: &str, n: usize) -> (r: String)
    requires
        s.len() <= n || s.is_char_boundary(if n == 0 { 0 } else { (n - 1) as usize }),
    ensures
        r@ == truncated(s, n),
{
    if s.len() <= n {
        String::from_str(s)
    } else {
        let keep: usize = if n == 0 { 0 } else { n - 1 };
        let (head, _) = s.split_at(keep);
        let mut r = String::from_str(head);
        proof {
            encode_utf8_decode_utf8(head@);
            assert(s.spec_bytes().subrange(0, keep as int) =~= s.spec_bytes().take(keep as int));
            assert(head.spec_bytes() == encode_utf8(head@));
            assert(decode_utf8(s.spec_bytes().take(keep as int)) == head@);
        }
        let ellipsis = "\u{2026}";
        proof {
            reveal_strlit("\u{2026}");
        }
        r.append(ellipsis);
        assert(r@ =~= head@ + seq!['\u{2026}']);
        r
    }
}

pub fn is_even(n: i32) -> (b: bool)
    ensures
        b == (n % 2 == 0),
{
    n % 2 == 0
}

/// 0 for a right guess, 1 for one too high, -1 for one too low.
pub fn check_guess(guess: i32, secret: i32) -> (r: i32)
    ensures
        guess == secret ==> r == 0,
        guess > secret ==> r == 1,
        guess < secret ==> r == -1,
{
    if guess == secret {
        0
    } else if guess > secret {
        1
    } else {
        -1
    }
}

/// `low + (low + step) + ...`, `k` terms.
pub open spec fn prefix_total(low: int, step: int, k: nat) -> int
    decreases k,
{
    if k == 0 {
        0
    } else {
        prefix_total(low, step, (k - 1) as nat) + low + (k - 1) * step
    }
}

/// How many of `low, low + step, ...` are at most `high`.
pub open spec fn term_count(low: int, high: int, step: int) -> nat {
    if low > high || step <= 0 {
        0
    } else {
        ((high - low) / step + 1) as nat
    }
}

/// Adds to `total` every value from `low` up to `high` going by `step`.
pub fn sum_with_step(total: &mut i32, low: i32, high: i32, step: i32)
    requires
        step > 0 || low > high,
        low + term_count(low as int, high as int, step as int) * step <= i32::MAX,
        forall|k: nat| k <= term_count(low as int, high as int, step as int) ==>
            i32::MIN <= #[trigger] (*old(total) + prefix_total(low as int, step as int, k)) <= i32::MAX,
    ensures
        *final(total) == *old(total) + prefix_total(low as int, step as int, term_count(low as int, high as int, step as int)),
{
    if low > high {
        return;
    }
    let ghost count = term_count(low as int, high as int, step as int);
    let ghost start = *total;
    let mut i: i32 = low;
    let ghost mut k: nat = 0;
    proof {
        if low <= high {
            assert((high - low) / (step as int) >= 0) by (nonlinear_arith)
                requires high - low >= 0, step > 0;
        }
    }
    while i <= high
        invariant
            step > 0,
            k <= count,
            i == low + k * step,
            *total == start + prefix_total(low as int, step as int, k),
            count == term_count(low as int, high as int, step as int),
            low + count * step <= i32::MAX,
            forall|j: nat| j <= count ==>
                i32::MIN <= #[trigger] (start + prefix_total(low as int, step as int, j)) <= i32::MAX,
            k < count <==> i <= high,
        decreases count - k,
    {
        proof {
            assert(start + prefix_total(low as int, step as int, k + 1) == *total + i);
            assert((k + 1) * step == k * step + step) by (nonlinear_arith);
            assert(low + (k + 1) * step <= low + count * step) by (nonlinear_arith)
                requires k + 1 <= count, step > 0;
        }
        *total = *total + i;
        i = i + step;
        proof {
            k = k + 1;
            let d = high - low;
            if k < count {
                assert(k <= d / (step as int));
                assert(k * step <= (d / (step as int)) * step) by (nonlinear_arith)
                    requires k <= d / (step as int), step > 0;
                assert((d / (step as int)) * step <= d) by (nonlinear_arith)
                    requires step > 0, d >= 0;
            } else {
                assert(k == d / (step as int) + 1);
                assert(d < (d / (step as int) + 1) * step) by (nonlinear_arith)
                    requires step > 0, d >= 0;
            }
        }
    }
    proof {
        if k < count {
            if low <= high {
                let d = high - low;
                assert(k * step <= (d / (step as int)) * step) by (nonlinear_arith)
                    requires k <= d / (step as int), step > 0;
                assert((d / (step as int)) * step <= d) by (nonlinear_arith)
                    requires step > 0, d >= 0;
            }
        }
    }
}

/// The Unicode White_Space characters, which `char::is_whitespace` accepts.
pub open spec fn is_white_space(c: char) -> bool {
    let u = c as u32;
    (0x9 <= u <= 0xd) || u == 0x20 || u == 0x85 || u == 0xa0 || u == 0x1680 || (0x2000 <= u <= 0x200a)
        || u == 0x2028 || u == 0x2029 || u == 0x202f || u == 0x205f || u == 0x3000
}

/// The words of `s`: its longest runs of characters other than white space, in order.
pub open spec fn whitespace_words(s: Seq<char>) -> Seq<Seq<char>>
    decreases s.len(),
{
    if s.len() == 0 {
        seq![]
    } else {
        let before = whitespace_words(s.drop_last());
        let c = s.last();
        if is_white_space(c) {
            before
        } else if s.len() >= 2 && !is_white_space(s[s.len() - 2]) {
            before.drop_last().push(before.last().push(c))
        } else {
            before.push(seq![c])
        }
    }
}

/// Relies on `str::split_whitespace`: it yields, in order, the non-empty
/// runs of `s` between characters of the White_Space property.
#[verifier::external_body]
fn split_words(text: &str) -> (ws: Vec<String>)
    ensures
        ws@.map_values(|w: String| w@) == whitespace_words(text@),
{
    text.split_whitespace().map(|w| w.to_string()).collect()
}

/// How many times `w` occurs in `ws`.
pub open spec fn occurrences(ws: Seq<Seq<char>>, w: Seq<char>) -> nat
    decreases ws.len(),
{
    if ws.len() == 0 {
        0
    } else {
        occurrences(ws.drop_last(), w) + if ws.last() == w { 1nat } else { 0nat }
    }
}

/// `(w, c)` is the answer for `ws`: `w` is the word of largest count `c`,
/// the first such in order; an empty list gives the empty word and 0.
pub open spec fn is_most_frequent(ws: Seq<Seq<char>>, w: Seq<char>, c: nat) -> bool {
    if ws.len() == 0 {
        w.len() == 0 && c == 0
    } else {
        exists|i: int|
            0 <= i < ws.len() && ws[i] == w && occurrences(ws, w) == c
                && (forall|j: int| 0 <= j < ws.len() ==> occurrences(ws, #[trigger] ws[j]) <= c)
                && (forall|j: int| 0 <= j < i ==> occurrences(ws, #[trigger] ws[j]) < c)
    }
}

proof fn lemma_occurs_once(ws: Seq<Seq<char>>, i: int)
    requires
        0 <= i < ws.len(),
    ensures
        occurrences(ws, ws[i]) >= 1,
        occurrences(ws, ws[i]) <= ws.len(),
    decreases ws.len(),
{
    lemma_occurrences_bound(ws, ws[i]);
    if i < ws.len() - 1 {
        lemma_occurs_once(ws.drop_last(), i);
    }
}

proof fn lemma_occurrences_bound(ws: Seq<Seq<char>>, w: Seq<char>)
    ensures
        occurrences(ws, w) <= ws.len(),
    decreases ws.len(),
{
    if ws.len() > 0 {
        lemma_occurrences_bound(ws.drop_last(), w);
    }
}

fn count_word(words: &Vec<String>, target: &String) -> (c: usize)
    ensures
        c == occurrences(words@.map_values(|w: String| w@), target@),
{
    let ghost v = words@.map_values(|w: String| w@);
    let mut c: usize = 0;
    let mut j: usize = 0;
    while j < words.len()
        invariant
            j <= words.len(),
            v == words@.map_values(|w: String| w@),
            c == occurrences(v.take(j as int), target@),
            c <= j,
        decreases words.len() - j,
    {
        assert(v.take(j as int + 1).drop_last() =~= v.take(j as int));
        if words[j] == *target {
            c = c + 1;
        }
        j = j + 1;
    }
    assert(v.take(words.len() as int) =~= v);
    c
}

/// The most frequent word of `words` and its count; the first in order wins a tie.
pub fn most_frequent_in(words: &Vec<String>) -> (r: (String, usize))
    ensures
        is_most_frequent(words@.map_values(|w: String| w@), r.0@, r.1 as nat),
{
    let ghost v = words@.map_values(|w: String| w@);
    let mut max_word = String::new();
    let mut max_count: usize = 0;
    let ghost mut best: int = 0;
    let mut i: usize = 0;
    while i < words.len()
        invariant
            i <= words.len(),
            v == words@.map_values(|w: String| w@),
            i == 0 ==> max_count == 0 && max_word@.len() == 0,
            i > 0 ==> 0 <= best < i && v[best] == max_word@ && occurrences(v, max_word@) == max_count,
            i > 0 ==> forall|j: int| 0 <= j < i ==> occurrences(v, #[trigger] v[j]) <= max_count,
            i > 0 ==> forall|j: int| 0 <= j < best ==> occurrences(v, #[trigger] v[j]) < max_count,
        decreases words.len() - i,
    {
        let c = count_word(words, &words[i]);
        proof {
            lemma_occurs_once(v, i as int);
        }
        if c > max_count {
            max_count = c;
            max_word = words[i].clone();
            proof {
                best = i as int;
            }
        }
        i = i + 1;
    }
    (max_word, max_count)
}

/// The most frequent whitespace-separated word of `text` and its count; the
/// first in order wins a tie, and a text without words gives `("", 0)`.
pub fn most_frequent_word(text: &str) -> (r: (String, usize))
    ensures
        is_most_frequent(whitespace_words(text@), r.0@, r.1 as nat),
{
    let words = split_words(text);
    most_frequent_in(&words)
}

} // verus!

//! Text helpers: decimal numerals, byte-wise string order and containment.

use vstd::prelude::*;
use vstd::utf8::encode_utf8;

verus! {

/// The decimal digit with value `d`.
pub open spec fn digit_char(d: nat) -> char {
    (48 + d) as char
}

/// The decimal numeral of `n`, most significant digit first.
pub open spec fn decimal(n: nat) -> Seq<char>
    decreases n,
{
    if n < 10 {
        seq![digit_char(n)]
    } else {
        decimal(n / 10).push(digit_char(n % 10))
    }
}

fn digit_text(d: u64) -> (r: &'static str)
    requires
        d < 10,
    ensures
        r@ == seq![digit_char(d as nat)],
{
    proof {
        reveal_strlit("0");
        reveal_strlit("1");
        reveal_strlit("2");
        reveal_strlit("3");
        reveal_strlit("4");
        reveal_strlit("5");
        reveal_strlit("6");
        reveal_strlit("7");
        reveal_strlit("8");
        reveal_strlit("9");
    }
    match d {
        0 => "0",
        1 => "1",
        2 => "2",
        3 => "3",
        4 => "4",
        5 => "5",
        6 => "6",
        7 => "7",
        8 => "8",
        _ => "9",
    }
}

/// Renders `n` as a decimal numeral.
pub fn decimal_text(n: u64) -> (r: String)
    ensures
        r@ == decimal(n as nat),
    decreases n,
{
    if n < 10 {
        let r = digit_text(n).to_owned();
        r
    } else {
        let mut r = decimal_text(n / 10);
        r.append(digit_text(n % 10));
        r
    }
}

/// The decimal numeral of a signed number: a minus sign before the numeral of
/// its absolute value when it is negative.
pub open spec fn signed_decimal(n: int) -> Seq<char> {
    if n < 0 {
        seq!['-'] + decimal((-n) as nat)
    } else {
        decimal(n as nat)
    }
}

/// Renders a signed number as a decimal numeral.
pub fn signed_decimal_text(n: i64) -> (r: String)
    ensures
        r@ == signed_decimal(n as int),
{
    if n < 0 {
        proof {
            reveal_strlit("-");
        }
        let mut r = "-".to_owned();
        let magnitude: u64 = if n == i64::MIN {
            9223372036854775808
        } else {
            (-n) as u64
        };
        let digits = decimal_text(magnitude);
        r.append(digits.as_str());
        assert("-"@ =~= seq!['-']);
        r
    } else {
        decimal_text(n as u64)
    }
}

/// Lexicographic order on byte sequences.
pub open spec fn bytes_less(a: Seq<u8>, b: Seq<u8>) -> bool
    decreases a.len(),
{
    if b.len() == 0 {
        false
    } else if a.len() == 0 {
        true
    } else if a[0] != b[0] {
        a[0] < b[0]
    } else {
        bytes_less(a.drop_first(), b.drop_first())
    }
}

/// Order on strings: lexicographic by UTF-8 bytes.
pub open spec fn text_less(a: Seq<char>, b: Seq<char>) -> bool {
    bytes_less(encode_utf8(a), encode_utf8(b))
}

/// Two strings with the same UTF-8 bytes are the same string.
pub proof fn lemma_encode_injective(a: Seq<char>, b: Seq<char>)
    requires
        encode_utf8(a) == encode_utf8(b),
    ensures
        a == b,
{
    vstd::utf8::encode_utf8_decode_utf8(a);
    vstd::utf8::encode_utf8_decode_utf8(b);
}

/// No byte sequence is below itself.
pub proof fn lemma_bytes_irreflexive(a: Seq<u8>)
    ensures
        !bytes_less(a, a),
    decreases a.len(),
{
    if a.len() > 0 {
        lemma_bytes_irreflexive(a.drop_first());
    }
}

/// The order on byte sequences is transitive.
pub proof fn lemma_bytes_transitive(a: Seq<u8>, b: Seq<u8>, c: Seq<u8>)
    requires
        bytes_less(a, b),
        bytes_less(b, c),
    ensures
        bytes_less(a, c),
    decreases a.len(),
{
    if a.len() > 0 && b.len() > 0 && c.len() > 0 && a[0] == b[0] && b[0] == c[0] {
        lemma_bytes_transitive(a.drop_first(), b.drop_first(), c.drop_first());
    }
}

/// Any two byte sequences are equal or ordered one way.
pub proof fn lemma_bytes_total(a: Seq<u8>, b: Seq<u8>)
    ensures
        a == b || bytes_less(a, b) || bytes_less(b, a),
    decreases a.len(),
{
    if a.len() > 0 && b.len() > 0 && a[0] == b[0] {
        lemma_bytes_total(a.drop_first(), b.drop_first());
        if a.drop_first() == b.drop_first() {
            assert(a =~= seq![a[0]] + a.drop_first());
            assert(b =~= seq![b[0]] + b.drop_first());
        }
    } else if a.len() == 0 && b.len() == 0 {
        assert(a =~= b);
    }
}

/// Whether `a` comes before `b` in the order on strings.
pub fn text_precedes(a: &str, b: &str) -> (r: bool)
    ensures
        r == text_less(a@, b@),
{
    let x = a.as_bytes();
    let y = b.as_bytes();
    let mut i: usize = 0;
    proof {
        assert(x@.skip(0) =~= x@);
        assert(y@.skip(0) =~= y@);
    }
    while i < x.len() && i < y.len() && x[i] == y[i]
        invariant
            i <= x@.len(),
            i <= y@.len(),
            bytes_less(x@, y@) == bytes_less(x@.skip(i as int), y@.skip(i as int)),
        decreases x.len() - i,
    {
        proof {
            assert(x@.skip(i as int).drop_first() =~= x@.skip(i + 1));
            assert(y@.skip(i as int).drop_first() =~= y@.skip(i + 1));
        }
        i = i + 1;
    }
    if i == y.len() {
        false
    } else if i == x.len() {
        true
    } else {
        x[i] < y[i]
    }
}

/// Whether some string of `texts` is `text`.
pub open spec fn has_text(texts: Seq<String>, text: Seq<char>) -> bool {
    exists|i: int| 0 <= i < texts.len() && #[trigger] texts[i]@ == text
}

/// Whether `texts` holds `text`.
pub fn contains_text(texts: &Vec<String>, text: &str) -> (r: bool)
    ensures
        r == has_text(texts@, text@),
{
    let wanted = text.to_owned();
    let mut i: usize = 0;
    while i < texts.len()
        invariant
            i <= texts@.len(),
            wanted@ == text@,
            forall|k: int| 0 <= k < i ==> #[trigger] texts@[k]@ != text@,
        decreases texts.len() - i,
    {
        if texts[i] == wanted {
            return true;
        }
        i = i + 1;
    }
    false
}

/// Whether a character is a decimal digit.
pub open spec fn is_digit(c: char) -> bool {
    '0' <= c <= '9'
}

/// Whether every character is a decimal digit.
pub open spec fn all_digits(s: Seq<char>) -> bool {
    forall|i: int| 0 <= i < s.len() ==> is_digit(#[trigger] s[i])
}

/// The number that a string of decimal digits writes.
pub open spec fn digits_value(s: Seq<char>) -> nat
    decreases s.len(),
{
    if s.len() == 0 {
        0
    } else {
        digits_value(s.drop_last()) * 10 + (s.last() as nat - 48) as nat
    }
}

/// The digits of a numeral: what follows an optional plus sign.
pub open spec fn unsigned_part(s: Seq<char>) -> Seq<char> {
    if s.len() > 0 && s[0] == '+' {
        s.drop_first()
    } else {
        s
    }
}

/// The 64-bit number that a string writes: an optional plus sign and at least
/// one digit, in range.
pub open spec fn parsed_u64(s: Seq<char>) -> Option<u64> {
    let digits = unsigned_part(s);
    if digits.len() > 0 && all_digits(digits) && digits_value(digits) <= u64::MAX {
        Some(digits_value(digits) as u64)
    } else {
        None
    }
}

proof fn lemma_digits_value_grows(s: Seq<char>, n: int)
    requires
        0 <= n <= s.len(),
        all_digits(s),
    ensures
        digits_value(s.take(n)) <= digits_value(s),
    decreases s.len() - n,
{
    if n < s.len() {
        lemma_digits_value_grows(s, n + 1);
        assert(s.take(n + 1).drop_last() =~= s.take(n));
    } else {
        assert(s.take(n) =~= s);
    }
}

/// Reads a 64-bit number.
pub fn parse_u64(text: &str) -> (r: Option<u64>)
    ensures
        r == parsed_u64(text@),
{
    let ghost s = text@;
    let ghost digits = unsigned_part(s);
    let mut value: u64 = 0;
    let mut count: u64 = 0;
    let mut first = true;
    let ghost skipped: int = if s.len() > 0 && s[0] == '+' { 1 } else { 0 };
    proof {
        assert(digits =~= s.skip(skipped));
    }
    for c in it: text.chars()
        invariant
            it.seq() == s,
            s == text@,
            digits == unsigned_part(s),
            digits == s.skip(skipped),
            skipped == (if s.len() > 0 && s[0] == '+' { 1int } else { 0int }),
            first == (it.index() == 0),
            count > 0 <==> it.index() > skipped,
            it.index() >= skipped || it.index() == 0,
            it.index() >= skipped ==> {
                &&& all_digits(digits.take(it.index() - skipped))
                &&& value == digits_value(digits.take(it.index() - skipped))
            },
            it.index() < skipped ==> value == 0,
    {
        let ghost n = it.index() as int;
        if first && c == '+' {
            first = false;
            proof {
                assert(skipped == 1);
                assert(digits.take(0) =~= Seq::<char>::empty());
            }
        } else {
            first = false;
            proof {
                assert(n >= skipped);
                assert(digits[n - skipped] == c);
                assert(digits.take(n + 1 - skipped).drop_last() =~= digits.take(n - skipped));
                assert(digits.take(n + 1 - skipped).last() == c);
            }
            if c < '0' || c > '9' {
                assert(!all_digits(digits)) by {
                    assert(!is_digit(digits[n - skipped]));
                }
                return None;
            }
            let d: u64 = (c as u32 - 48) as u64;
            proof {
                if all_digits(digits) {
                    lemma_digits_value_grows(digits, n + 1 - skipped);
                }
                assert(digits_value(digits.take(n + 1 - skipped)) == value * 10 + d);
            }
            match value.checked_mul(10) {
                Some(tens) => match tens.checked_add(d) {
                    Some(next) => {
                        value = next;
                    },
                    None => {
                        return None;
                    },
                },
                None => {
                    return None;
                },
            }
            count = 1;
        }
    }
    proof {
        if s.len() >= skipped {
            assert(digits.take(s.len() - skipped) =~= digits);
        }
    }
    if count > 0 {
        Some(value)
    } else {
        None
    }
}

/// The contents of some strings.
pub open spec fn texts(strings: Seq<String>) -> Seq<Seq<char>> {
    Seq::new(strings.len(), |i: int| strings[i]@)
}

/// Whether some strings ascend without repetition.
pub open spec fn ascending(texts: Seq<Seq<char>>) -> bool {
    forall|i: int, j: int| 0 <= i < j < texts.len() ==> text_less(#[trigger] texts[i], #[trigger] texts[j])
}

/// Appending a string adds its text.
pub proof fn lemma_texts_push(strings: Seq<String>, s: String)
    ensures
        texts(strings.push(s)) == texts(strings).push(s@),
        forall|path: Seq<char>| #[trigger] texts(strings.push(s)).contains(path) <==> (texts(strings).contains(
            path,
        ) || path == s@),
{
    assert(texts(strings.push(s)) =~= texts(strings).push(s@));
    assert forall|path: Seq<char>| #[trigger] texts(strings.push(s)).contains(path) <==> (texts(
        strings,
    ).contains(path) || path == s@) by {
        let after = texts(strings.push(s));
        if texts(strings).contains(path) {
            let k = choose|k: int| 0 <= k < texts(strings).len() && texts(strings)[k] == path;
            assert(after[k] == path);
        }
        if path == s@ {
            assert(after[strings.len() as int] == path);
        }
    }
}

/// Adds a string to ascending strings, unless it is there already.
pub fn insert_ascending(strings: &mut Vec<String>, s: String)
    requires
        ascending(texts(old(strings)@)),
    ensures
        ascending(texts(final(strings)@)),
        forall|t: Seq<char>| #[trigger] texts(final(strings)@).contains(t) <==> (texts(old(strings)@).contains(t) || t
            == s@),
{
    let mut i: usize = 0;
    while i < strings.len() && text_precedes(strings[i].as_str(), s.as_str())
        invariant
            strings@ == old(strings)@,
            i <= strings@.len(),
            forall|k: int| 0 <= k < i ==> text_less(#[trigger] strings@[k]@, s@),
        decreases strings@.len() - i,
    {
        i = i + 1;
    }
    let ghost before = texts(old(strings)@);
    if i < strings.len() && strings[i] == s {
        assert(before[i as int] == s@);
        assert(before.contains(s@));
        return;
    }
    proof {
        if i < strings@.len() {
            lemma_bytes_total(encode_utf8(strings@[i as int]@), encode_utf8(s@));
            if encode_utf8(strings@[i as int]@) == encode_utf8(s@) {
                lemma_encode_injective(strings@[i as int]@, s@);
            }
            assert(text_less(s@, before[i as int]));
        }
        assert forall|k: int| i <= k < before.len() implies text_less(s@, #[trigger] before[k]) by {
            if k > i {
                assert(text_less(before[i as int], before[k]));
                lemma_bytes_transitive(encode_utf8(s@), encode_utf8(before[i as int]), encode_utf8(before[k]));
            }
        }
        assert forall|k: int| 0 <= k < i implies text_less(#[trigger] before[k], s@) by {
            assert(text_less(strings@[k]@, s@));
        }
    }
    strings.insert(i, s);
    proof {
        let after = texts(strings@);
        assert(after =~= before.insert(i as int, s@));
        assert forall|a: int, b: int| 0 <= a < b < after.len() implies text_less(
            #[trigger] after[a],
            #[trigger] after[b],
        ) by {
            let x = if a < i { before[a] } else if a == i { s@ } else { before[a - 1] };
            let y = if b < i { before[b] } else if b == i { s@ } else { before[b - 1] };
            assert(after[a] == x && after[b] == y);
        }
        assert forall|t: Seq<char>| #[trigger] after.contains(t) <==> (before.contains(t) || t == s@) by {
            if before.contains(t) {
                let k = choose|k: int| 0 <= k < before.len() && before[k] == t;
                assert(after[if k < i { k } else { k + 1 }] == t);
            }
            if t == s@ {
                assert(after[i as int] == t);
            }
            if after.contains(t) {
                let k = choose|k: int| 0 <= k < after.len() && after[k] == t;
                if k < i {
                    assert(before[k] == t);
                } else if k > i {
                    assert(before[k - 1] == t);
                }
            }
        }
    }
}

/// Whether `set` holds the distinct strings of a list, ascending.
pub open spec fn is_ascending_set(set: Seq<Seq<char>>, list: Seq<Seq<char>>) -> bool {
    ascending(set) && forall|t: Seq<char>| #[trigger] set.contains(t) <==> list.contains(t)
}

/// The distinct strings of a list, ascending.
pub open spec fn ascending_set(list: Seq<Seq<char>>) -> Seq<Seq<char>> {
    choose|set: Seq<Seq<char>>| is_ascending_set(set, list)
}

/// Ascending strings are determined by what they are.
pub proof fn lemma_ascending_unique(a: Seq<Seq<char>>, b: Seq<Seq<char>>)
    requires
        ascending(a),
        ascending(b),
        forall|t: Seq<char>| #[trigger] a.contains(t) <==> b.contains(t),
    ensures
        a == b,
    decreases a.len(),
{
    if a.len() == 0 {
        if b.len() > 0 {
            assert(b.contains(b[0]));
            assert(a.contains(b[0]));
        }
        assert(a =~= b);
    } else {
        let x = a.last();
        assert(a.contains(a[a.len() - 1]));
        assert(b.contains(x));
        let y = b.last();
        assert(b.contains(b[b.len() - 1]));
        assert(a.contains(y));
        let i = choose|i: int| 0 <= i < a.len() && a[i] == y;
        let j = choose|j: int| 0 <= j < b.len() && b[j] == x;
        assert(x == y) by {
            if x != y {
                assert(i < a.len() - 1 && j < b.len() - 1);
                assert(text_less(a[i], a[a.len() - 1]));
                assert(text_less(b[j], b[b.len() - 1]));
                lemma_bytes_transitive(encode_utf8(x), encode_utf8(y), encode_utf8(x));
                lemma_bytes_irreflexive(encode_utf8(x));
            }
        }
        let a1 = a.drop_last();
        let b1 = b.drop_last();
        assert forall|p: int, q: int| 0 <= p < q < a1.len() implies text_less(
            #[trigger] a1[p],
            #[trigger] a1[q],
        ) by {
            assert(text_less(a[p], a[q]));
        }
        assert forall|p: int, q: int| 0 <= p < q < b1.len() implies text_less(
            #[trigger] b1[p],
            #[trigger] b1[q],
        ) by {
            assert(text_less(b[p], b[q]));
        }
        assert forall|t: Seq<char>| #[trigger] a1.contains(t) <==> b1.contains(t) by {
            lemma_drop_last_contains(a, t);
            lemma_drop_last_contains(b, t);
            assert(a.contains(t) <==> b.contains(t));
        }
        lemma_ascending_unique(a1, b1);
        assert(a =~= a1.push(x));
        assert(b =~= b1.push(y));
    }
}

proof fn lemma_drop_last_contains(s: Seq<Seq<char>>, t: Seq<char>)
    requires
        s.len() > 0,
        ascending(s),
    ensures
        s.drop_last().contains(t) <==> (s.contains(t) && t != s.last()),
{
    let shorter = s.drop_last();
    if shorter.contains(t) {
        let k = choose|k: int| 0 <= k < shorter.len() && shorter[k] == t;
        assert(s[k] == t);
        assert(text_less(s[k], s[s.len() - 1]));
        lemma_bytes_irreflexive(encode_utf8(t));
    }
    if s.contains(t) && t != s.last() {
        let k = choose|k: int| 0 <= k < s.len() && s[k] == t;
        assert(shorter[k] == t);
    }
}

/// Strings that are the distinct strings of a list, ascending, are the ones
/// that `ascending_set` names.
pub proof fn lemma_ascending_set(set: Seq<Seq<char>>, list: Seq<Seq<char>>)
    requires
        is_ascending_set(set, list),
    ensures
        set == ascending_set(list),
{
    let named = ascending_set(list);
    assert(is_ascending_set(named, list));
    assert forall|t: Seq<char>| #[trigger] set.contains(t) <==> named.contains(t) by {
        assert(set.contains(t) <==> list.contains(t));
        assert(named.contains(t) <==> list.contains(t));
    }
    lemma_ascending_unique(set, named);
}

/// Adds every string of a list to ascending strings.
pub fn insert_all_ascending(strings: &mut Vec<String>, more: Vec<String>)
    requires
        ascending(texts(old(strings)@)),
    ensures
        ascending(texts(final(strings)@)),
        forall|t: Seq<char>| #[trigger] texts(final(strings)@).contains(t) <==> (texts(old(strings)@).contains(t)
            || texts(more@).contains(t)),
{
    let ghost all = texts(more@);
    let ghost first = texts(strings@);
    for s in it: more.into_iter()
        invariant
            all == texts(it.seq()),
            ascending(texts(strings@)),
            forall|t: Seq<char>| #[trigger] texts(strings@).contains(t) <==> (first.contains(t) || all.take(
                it.index() as int,
            ).contains(t)),
    {
        let ghost n = it.index() as int;
        let ghost text = s@;
        let ghost before = texts(strings@);
        insert_ascending(strings, s);
        proof {
            assert(all[n] == text);
            let shorter = all.take(n);
            let longer = all.take(n + 1);
            assert(longer =~= shorter.push(text));
            assert forall|t: Seq<char>| #[trigger] texts(strings@).contains(t) <==> (first.contains(t)
                || longer.contains(t)) by {
                assert(before.contains(t) <==> (first.contains(t) || shorter.contains(t)));
                if shorter.contains(t) {
                    let k = choose|k: int| 0 <= k < shorter.len() && shorter[k] == t;
                    assert(longer[k] == t);
                }
                if t == text {
                    assert(longer[n] == t);
                }
                if longer.contains(t) && t != text {
                    let k = choose|k: int| 0 <= k < longer.len() && longer[k] == t;
                    assert(shorter[k] == t);
                }
            }
        }
    }
    assert(all.take(all.len() as int) =~= all);
}

/// A decimal numeral holds digits only, and at least one.
pub proof fn lemma_decimal_digits(n: nat)
    ensures
        decimal(n).len() > 0,
        forall|i: int| 0 <= i < decimal(n).len() ==> is_digit(#[trigger] decimal(n)[i]),
    decreases n,
{
    if n >= 10 {
        lemma_decimal_digits(n / 10);
    }
}

/// Different numbers have different decimal numerals.
pub proof fn lemma_decimal_injective(a: nat, b: nat)
    requires
        decimal(a) == decimal(b),
    ensures
        a == b,
    decreases a,
{
    let x = decimal(a);
    let y = decimal(b);
    assert(x.last() == digit_char(a % 10));
    assert(y.last() == digit_char(b % 10));
    assert(a % 10 == b % 10);
    if a >= 10 {
        lemma_decimal_digits(a / 10);
        assert(x.drop_last() =~= decimal(a / 10));
        assert(b >= 10);
        assert(y.drop_last() =~= decimal(b / 10));
        lemma_decimal_injective(a / 10, b / 10);
    } else if b >= 10 {
        lemma_decimal_digits(b / 10);
        assert(x.len() == 1);
    }
}

proof fn lemma_place(set: Seq<Seq<char>>, t: Seq<char>, from: int) -> (at: int)
    requires
        0 <= from <= set.len(),
        forall|k: int| 0 <= k < from ==> text_less(#[trigger] set[k], t),
    ensures
        from <= at <= set.len(),
        forall|k: int| 0 <= k < at ==> text_less(#[trigger] set[k], t),
        at < set.len() ==> !text_less(set[at], t),
    decreases set.len() - from,
{
    if from < set.len() && text_less(set[from], t) {
        lemma_place(set, t, from + 1)
    } else {
        from
    }
}

/// Every list has distinct strings that can be put in ascending order.
pub proof fn ascending_sets_exist(list: Seq<Seq<char>>)
    ensures
        is_ascending_set(ascending_set(list), list),
    decreases list.len(),
{
    if list.len() == 0 {
        assert(is_ascending_set(Seq::empty(), list));
    } else {
        let t = list.last();
        let fewer = list.drop_last();
        ascending_sets_exist(fewer);
        let set = ascending_set(fewer);
        assert(list =~= fewer.push(t));
        assert forall|x: Seq<char>| #[trigger] list.contains(x) <==> (fewer.contains(x) || x == t) by {
            if fewer.contains(x) {
                let k = choose|k: int| 0 <= k < fewer.len() && fewer[k] == x;
                assert(list[k] == x);
            }
            if x == t {
                assert(list[list.len() - 1] == x);
            }
            if list.contains(x) && x != t {
                let k = choose|k: int| 0 <= k < list.len() && list[k] == x;
                assert(fewer[k] == x);
            }
        }
        if set.contains(t) {
            assert(is_ascending_set(set, list));
        } else {
            let at = lemma_place(set, t, 0);
            let after = set.insert(at, t);
            if at < set.len() {
                assert(set.contains(set[at]));
                lemma_bytes_total(encode_utf8(set[at]), encode_utf8(t));
                if encode_utf8(set[at]) == encode_utf8(t) {
                    lemma_encode_injective(set[at], t);
                }
                assert(text_less(t, set[at]));
            }
            assert forall|k: int| at <= k < set.len() implies text_less(t, #[trigger] set[k]) by {
                if k > at {
                    assert(text_less(set[at], set[k]));
                    lemma_bytes_transitive(encode_utf8(t), encode_utf8(set[at]), encode_utf8(set[k]));
                }
            }
            assert forall|a: int, b: int| 0 <= a < b < after.len() implies text_less(
                #[trigger] after[a],
                #[trigger] after[b],
            ) by {
                let x = if a < at {
                    set[a]
                } else if a == at {
                    t
                } else {
                    set[a - 1]
                };
                let y = if b < at {
                    set[b]
                } else if b == at {
                    t
                } else {
                    set[b - 1]
                };
                assert(after[a] == x && after[b] == y);
            }
            assert forall|x: Seq<char>| #[trigger] after.contains(x) <==> list.contains(x) by {
                if set.contains(x) {
                    let k = choose|k: int| 0 <= k < set.len() && set[k] == x;
                    assert(after[if k < at {
                        k
                    } else {
                        k + 1
                    }] == x);
                }
                if x == t {
                    assert(after[at] == x);
                }
                if after.contains(x) {
                    let k = choose|k: int| 0 <= k < after.len() && after[k] == x;
                    if k < at {
                        assert(set[k] == x);
                    } else if k > at {
                        assert(set[k - 1] == x);
                    }
                }
                assert(set.contains(x) <==> fewer.contains(x));
            }
            assert(is_ascending_set(after, list));
        }
    }
}

/// A decimal numeral stands for its number: reading it gives the number back.
pub proof fn numerals_read_back(n: nat)
    ensures
        digits_value(decimal(n)) == n,
        n <= u64::MAX ==> parsed_u64(decimal(n)) == Some(n as u64),
    decreases n,
{
    lemma_decimal_digits(n);
    reveal_with_fuel(digits_value, 2);
    if n >= 10 {
        numerals_read_back(n / 10);
        assert(decimal(n).drop_last() =~= decimal(n / 10));
        assert(decimal(n).last() == digit_char(n % 10));
    } else {
        assert(decimal(n).drop_last() =~= Seq::<char>::empty());
        assert(decimal(n).last() == digit_char(n));
    }
}

/// Ascending strings are distinct.
pub proof fn ascending_has_no_duplicates(set: Seq<Seq<char>>)
    requires
        ascending(set),
    ensures
        set.no_duplicates(),
{
    assert forall|i: int, j: int| 0 <= i < set.len() && 0 <= j < set.len() && i != j implies set[i]
        != set[j] by {
        if i < j {
            assert(text_less(set[i], set[j]));
        } else {
            assert(text_less(set[j], set[i]));
        }
        lemma_bytes_irreflexive(encode_utf8(set[i]));
    }
}

} // verus!

//! Text helpers: decimal numbers, ASCII case, trimming, splitting and search.
//!
//! Messages are assembled from literals and decimal numbers, and names are
//! compared character by character; the functions here do that over the
//! sequence of characters a string stands for.

use vstd::prelude::*;
use vstd::string::StringSliceAdditionalSpecFns;

verus! {

/// [`String::push`]: appends the character `c`.
#[verifier::external_body]
fn push_char(s: &mut String, c: char)
    ensures
        final(s)@ == old(s)@.push(c),
{
    s.push(c);
}

// ---------------------------------------------------------------------------
// Decimal numbers
// ---------------------------------------------------------------------------

/// The digit `d`.
pub open spec fn digit(d: int) -> char {
    ('0' as int + d) as char
}

/// `n` in decimal, without leading zeros.
pub open spec fn decimal(n: nat) -> Seq<char>
    decreases n,
{
    if n < 10 {
        seq![digit(n as int)]
    } else {
        decimal(n / 10).push(digit((n % 10) as int))
    }
}

/// `n` in decimal, with a leading minus sign when negative.
pub open spec fn signed_decimal(n: int) -> Seq<char> {
    if n < 0 {
        seq!['-'] + decimal((-n) as nat)
    } else {
        decimal(n as nat)
    }
}

fn digit_char(d: u8) -> (c: char)
    requires
        d < 10,
    ensures
        c == digit(d as int),
{
    (48 + d) as char
}

/// Append `n` in decimal.
pub fn push_decimal(out: &mut String, n: u64)
    ensures
        final(out)@ == old(out)@ + decimal(n as nat),
    decreases n,
{
    if n >= 10 {
        push_decimal(out, n / 10);
    }
    push_char(out, digit_char((n % 10) as u8));
    proof {
        assert(out@ =~= old(out)@ + decimal(n as nat));
    }
}

/// Append `n` in decimal.
pub fn push_decimal_wide(out: &mut String, n: u128)
    ensures
        final(out)@ == old(out)@ + decimal(n as nat),
    decreases n,
{
    if n >= 10 {
        push_decimal_wide(out, n / 10);
    }
    push_char(out, digit_char((n % 10) as u8));
    proof {
        assert(out@ =~= old(out)@ + decimal(n as nat));
    }
}

/// The items of `list` in decimal, separated by commas.
pub open spec fn decimal_items(list: Seq<usize>) -> Seq<char>
    decreases list.len(),
{
    if list.len() == 0 {
        Seq::empty()
    } else if list.len() == 1 {
        decimal(list[0] as nat)
    } else {
        decimal_items(list.drop_last()) + ", "@ + decimal(list.last() as nat)
    }
}

/// `list` in decimal, between square brackets.
pub open spec fn decimal_list(list: Seq<usize>) -> Seq<char> {
    "["@ + decimal_items(list) + "]"@
}

/// Append `list` in decimal, between square brackets.
pub fn push_decimal_list(out: &mut String, list: &[usize])
    ensures
        final(out)@ == old(out)@ + decimal_list(list@),
{
    out.append("[");
    let ghost start = out@;
    let mut i: usize = 0;
    proof {
        assert(out@ =~= start + decimal_items(list@.take(0)));
    }
    while i < list.len()
        invariant
            i <= list@.len(),
            out@ == start + decimal_items(list@.take(i as int)),
        decreases list@.len() - i,
    {
        let ghost before = decimal_items(list@.take(i as int));
        if i > 0 {
            out.append(", ");
        }
        push_decimal(out, list[i] as u64);
        proof {
            let next = list@.take(i + 1);
            assert(next.drop_last() =~= list@.take(i as int));
            assert(next.last() == list@[i as int]);
            if i == 0 {
                assert(before =~= Seq::<char>::empty());
                assert(out@ =~= start + decimal(list@[0] as nat));
                assert(decimal_items(next) == decimal(next[0] as nat));
            } else {
                assert(out@ =~= start + (before + ", "@ + decimal(list@[i as int] as nat)));
            }
        }
        i = i + 1;
    }
    out.append("]");
    proof {
        assert(list@.take(i as int) =~= list@);
        assert(out@ =~= old(out)@ + decimal_list(list@));
    }
}

/// Append `n` in decimal.
pub fn push_decimal_i64(out: &mut String, n: i64)
    ensures
        final(out)@ == old(out)@ + signed_decimal(n as int),
{
    if n < 0 {
        push_char(out, '-');
        let magnitude: u64 = (-(n as i128)) as u64;
        push_decimal(out, magnitude);
        proof {
            assert(out@ =~= old(out)@ + signed_decimal(n as int));
        }
    } else {
        push_decimal(out, n as u64);
    }
}

// ---------------------------------------------------------------------------
// Characters of a string
// ---------------------------------------------------------------------------

/// The characters of `s`.
pub fn chars_of(s: &str) -> (r: Vec<char>)
    ensures
        r@ == s@,
{
    let mut out: Vec<char> = Vec::new();
    for c in it: s.chars()
        invariant
            out@ == it.seq().take(it.index() as int),
            it.seq() == s@,
    {
        out.push(c);
        proof {
            assert(it.seq().take(it.index() + 1) =~= it.seq().take(it.index() as int).push(c));
        }
    }
    proof {
        assert(s@.take(s@.len() as int) =~= s@);
    }
    out
}

/// The string of the characters `from..to`.
pub fn string_of(chars: &Vec<char>, from: usize, to: usize) -> (r: String)
    requires
        from <= to <= chars@.len(),
    ensures
        r@ == chars@.subrange(from as int, to as int),
{
    let mut out = String::new();
    let mut i: usize = from;
    while i < to
        invariant
            from <= i <= to <= chars@.len(),
            out@ == chars@.subrange(from as int, i as int),
        decreases to - i,
    {
        push_char(&mut out, chars[i]);
        i = i + 1;
        proof {
            assert(chars@.subrange(from as int, i as int) =~= chars@.subrange(
                from as int,
                i - 1,
            ).push(chars@[i - 1]));
        }
    }
    out
}

/// Whether two strings hold the same characters.
pub fn same(a: &str, b: &str) -> (r: bool)
    ensures
        r == (a@ == b@),
{
    let x = a.as_bytes();
    let y = b.as_bytes();
    proof {
        vstd::utf8::encode_utf8_decode_utf8(a@);
        vstd::utf8::encode_utf8_decode_utf8(b@);
    }
    if x.len() != y.len() {
        return false;
    }
    let mut i: usize = 0;
    while i < x.len()
        invariant
            i <= x@.len(),
            x@.len() == y@.len(),
            x@ == a.spec_bytes(),
            y@ == b.spec_bytes(),
            forall|k: int| 0 <= k < i ==> x@[k] == y@[k],
        decreases x@.len() - i,
    {
        if x[i] != y[i] {
            return false;
        }
        i = i + 1;
    }
    proof {
        assert(x@ =~= y@);
    }
    true
}

// ---------------------------------------------------------------------------
// Order
// ---------------------------------------------------------------------------

/// Whether `a` comes before `b` in the order of code points.
pub open spec fn precedes(a: Seq<char>, b: Seq<char>) -> bool
    decreases a.len(),
{
    if b.len() == 0 {
        false
    } else if a.len() == 0 {
        true
    } else if a[0] == b[0] {
        precedes(a.drop_first(), b.drop_first())
    } else {
        a[0] < b[0]
    }
}

/// Nothing comes before itself.
pub proof fn lemma_precedes_irreflexive(a: Seq<char>)
    ensures
        !precedes(a, a),
    decreases a.len(),
{
    if a.len() > 0 {
        lemma_precedes_irreflexive(a.drop_first());
    }
}

/// The order is transitive.
pub proof fn lemma_precedes_transitive(a: Seq<char>, b: Seq<char>, c: Seq<char>)
    requires
        precedes(a, b),
        precedes(b, c),
    ensures
        precedes(a, c),
    decreases a.len(),
{
    if a.len() > 0 && a[0] == b[0] && b[0] == c[0] {
        lemma_precedes_transitive(a.drop_first(), b.drop_first(), c.drop_first());
    }
}

/// Of two different texts one comes first.
pub proof fn lemma_precedes_total(a: Seq<char>, b: Seq<char>)
    ensures
        a == b || precedes(a, b) || precedes(b, a),
    decreases a.len(),
{
    if a.len() == 0 {
        if b.len() == 0 {
            assert(a =~= b);
        }
    } else if b.len() > 0 && a[0] == b[0] {
        lemma_precedes_total(a.drop_first(), b.drop_first());
        if a.drop_first() == b.drop_first() {
            assert(a =~= seq![a[0]] + a.drop_first());
            assert(b =~= seq![b[0]] + b.drop_first());
        }
    }
}

/// Whether `a` comes before `b`.
pub fn before(a: &str, b: &str) -> (r: bool)
    ensures
        r == precedes(a@, b@),
{
    let x = chars_of(a);
    let y = chars_of(b);
    let mut i: usize = 0;
    proof {
        assert(a@.skip(0) =~= a@);
        assert(b@.skip(0) =~= b@);
    }
    loop
        invariant
            x@ == a@,
            y@ == b@,
            i <= x@.len(),
            i <= y@.len(),
            precedes(a@, b@) == precedes(a@.skip(i as int), b@.skip(i as int)),
        decreases x@.len() - i,
    {
        if i == y.len() {
            return false;
        }
        if i == x.len() {
            return true;
        }
        if x[i] != y[i] {
            return x[i] < y[i];
        }
        proof {
            assert(a@.skip(i as int).drop_first() =~= a@.skip(i + 1));
            assert(b@.skip(i as int).drop_first() =~= b@.skip(i + 1));
        }
        i = i + 1;
    }
}

// ---------------------------------------------------------------------------
// ASCII case
// ---------------------------------------------------------------------------

/// `c` with an ASCII upper-case letter replaced by its lower-case form.
pub open spec fn lower_char(c: char) -> char {
    if 'A' <= c && c <= 'Z' {
        (c as int + 32) as char
    } else {
        c
    }
}

/// `c` with an ASCII lower-case letter replaced by its upper-case form.
pub open spec fn upper_char(c: char) -> char {
    if 'a' <= c && c <= 'z' {
        (c as int - 32) as char
    } else {
        c
    }
}

/// `s` with every ASCII letter in lower case.
pub open spec fn lower(s: Seq<char>) -> Seq<char> {
    s.map_values(|c: char| lower_char(c))
}

/// `s` with every ASCII letter in upper case.
pub open spec fn upper(s: Seq<char>) -> Seq<char> {
    s.map_values(|c: char| upper_char(c))
}

/// ASCII lower case of one character.
pub fn lower_of(c: char) -> (r: char)
    ensures
        r == lower_char(c),
{
    if 'A' <= c && c <= 'Z' {
        (c as u8 + 32) as char
    } else {
        c
    }
}

/// ASCII upper case of one character.
pub fn upper_of(c: char) -> (r: char)
    ensures
        r == upper_char(c),
{
    if 'a' <= c && c <= 'z' {
        (c as u8 - 32) as char
    } else {
        c
    }
}

/// `s` with every ASCII letter in lower case.
pub fn to_lower(s: &str) -> (r: String)
    ensures
        r@ == lower(s@),
{
    let chars = chars_of(s);
    let mut out = String::new();
    let mut i: usize = 0;
    while i < chars.len()
        invariant
            i <= chars@.len(),
            chars@ == s@,
            out@ == lower(s@).take(i as int),
        decreases chars@.len() - i,
    {
        push_char(&mut out, lower_of(chars[i]));
        i = i + 1;
        proof {
            assert(lower(s@).take(i as int) =~= lower(s@).take(i - 1).push(lower(s@)[i - 1]));
        }
    }
    proof {
        assert(lower(s@).take(i as int) =~= lower(s@));
    }
    out
}

/// `s` with every ASCII letter in upper case.
pub fn to_upper(s: &str) -> (r: String)
    ensures
        r@ == upper(s@),
{
    let chars = chars_of(s);
    let mut out = String::new();
    let mut i: usize = 0;
    while i < chars.len()
        invariant
            i <= chars@.len(),
            chars@ == s@,
            out@ == upper(s@).take(i as int),
        decreases chars@.len() - i,
    {
        push_char(&mut out, upper_of(chars[i]));
        i = i + 1;
        proof {
            assert(upper(s@).take(i as int) =~= upper(s@).take(i - 1).push(upper(s@)[i - 1]));
        }
    }
    proof {
        assert(upper(s@).take(i as int) =~= upper(s@));
    }
    out
}

// ---------------------------------------------------------------------------
// Trimming
// ---------------------------------------------------------------------------

/// Whether `c` has the Unicode `White_Space` property.
pub open spec fn white_space(c: char) -> bool {
    ||| '\u{9}' <= c && c <= '\u{d}'
    ||| c == ' '
    ||| c == '\u{85}'
    ||| c == '\u{a0}'
    ||| c == '\u{1680}'
    ||| '\u{2000}' <= c && c <= '\u{200a}'
    ||| c == '\u{2028}'
    ||| c == '\u{2029}'
    ||| c == '\u{202f}'
    ||| c == '\u{205f}'
    ||| c == '\u{3000}'
}

/// `s` without its leading white space.
pub open spec fn trim_start(s: Seq<char>) -> Seq<char>
    decreases s.len(),
{
    if s.len() > 0 && white_space(s[0]) {
        trim_start(s.drop_first())
    } else {
        s
    }
}

/// `s` without its trailing white space.
pub open spec fn trim_end(s: Seq<char>) -> Seq<char>
    decreases s.len(),
{
    if s.len() > 0 && white_space(s.last()) {
        trim_end(s.drop_last())
    } else {
        s
    }
}

/// `s` without white space at either end.
pub open spec fn trimmed(s: Seq<char>) -> Seq<char> {
    trim_end(trim_start(s))
}

fn is_white_space(c: char) -> (r: bool)
    ensures
        r == white_space(c),
{
    ('\u{9}' <= c && c <= '\u{d}') || c == ' ' || c == '\u{85}' || c == '\u{a0}' || c == '\u{1680}'
        || ('\u{2000}' <= c && c <= '\u{200a}') || c == '\u{2028}' || c == '\u{2029}' || c
        == '\u{202f}' || c == '\u{205f}' || c == '\u{3000}'
}

/// `s` without white space at either end.
pub fn trim(s: &str) -> (r: String)
    ensures
        r@ == trimmed(s@),
{
    let chars = chars_of(s);
    let mut from: usize = 0;
    proof {
        assert(s@.skip(0) =~= s@);
    }
    while from < chars.len() && is_white_space(chars[from])
        invariant
            from <= chars@.len(),
            chars@ == s@,
            trim_start(s@) == trim_start(s@.skip(from as int)),
        decreases chars@.len() - from,
    {
        proof {
            assert(s@.skip(from as int).drop_first() =~= s@.skip(from + 1));
        }
        from = from + 1;
    }
    let ghost kept = s@.skip(from as int);
    assert(trim_start(s@) == kept);
    let mut to: usize = chars.len();
    proof {
        assert(kept.take(kept.len() as int) =~= kept);
    }
    while to > from && is_white_space(chars[to - 1])
        invariant
            from <= to <= chars@.len(),
            chars@ == s@,
            kept == s@.skip(from as int),
            trim_end(kept) == trim_end(kept.take(to - from)),
        decreases to,
    {
        proof {
            assert(kept.take(to - from).drop_last() =~= kept.take(to - 1 - from));
        }
        to = to - 1;
    }
    proof {
        assert(kept.take(to - from) =~= s@.subrange(from as int, to as int));
    }
    string_of(&chars, from, to)
}

// ---------------------------------------------------------------------------
// Search
// ---------------------------------------------------------------------------

/// Whether `needle` stands in `hay` at position `at`.
pub open spec fn occurs_at(hay: Seq<char>, needle: Seq<char>, at: int) -> bool {
    0 <= at && at + needle.len() <= hay.len() && hay.subrange(at, at + needle.len()) == needle
}

/// Whether `needle` stands anywhere in `hay`.
pub open spec fn occurs(hay: Seq<char>, needle: Seq<char>) -> bool {
    exists|at: int| occurs_at(hay, needle, at)
}

/// Whether `needle` stands anywhere in `hay`.
pub fn contains(hay: &str, needle: &str) -> (r: bool)
    ensures
        r == occurs(hay@, needle@),
{
    let h = chars_of(hay);
    let n = chars_of(needle);
    if n.len() > h.len() {
        return false;
    }
    let last: usize = h.len() - n.len();
    let mut at: usize = 0;
    loop
        invariant
            h@ == hay@,
            n@ == needle@,
            last == h@.len() - n@.len(),
            at <= last,
            forall|k: int| 0 <= k < at ==> !occurs_at(hay@, needle@, k),
        decreases last - at,
    {
        let mut i: usize = 0;
        while i < n.len() && h[at + i] == n[i]
            invariant
                h@ == hay@,
                n@ == needle@,
                at + n@.len() <= h.len(),
                i <= n@.len(),
                forall|k: int| 0 <= k < i ==> h@[at + k] == n@[k],
            decreases n@.len() - i,
        {
            i = i + 1;
        }
        if i == n.len() {
            proof {
                assert(hay@.subrange(at as int, at + needle@.len()) =~= needle@);
                assert(occurs_at(hay@, needle@, at as int));
            }
            return true;
        }
        proof {
            assert(hay@.subrange(at as int, at + needle@.len())[i as int] == hay@[at + i]);
            assert(!occurs_at(hay@, needle@, at as int));
        }
        if at == last {
            return false;
        }
        at = at + 1;
    }
}

// ---------------------------------------------------------------------------
// Splitting
// ---------------------------------------------------------------------------

/// Position of the first `sep` in `s` at or after `from`, or the length of `s`.
pub open spec fn next_sep(s: Seq<char>, sep: char, from: int) -> int
    decreases s.len() - from,
{
    if 0 <= from < s.len() && s[from] != sep {
        next_sep(s, sep, from + 1)
    } else {
        from
    }
}

/// The first separator from `from` on is at `end` where none comes before it.
pub proof fn lemma_next_sep(s: Seq<char>, sep: char, from: int, end: int)
    requires
        0 <= from <= end <= s.len(),
        forall|i: int| from <= i < end ==> s[i] != sep,
        end < s.len() ==> s[end] == sep,
    ensures
        next_sep(s, sep, from) == end,
    decreases end - from,
{
    if from < end {
        lemma_next_sep(s, sep, from + 1, end);
    }
}

/// The pieces of `s` from position `from` on, divided at every `sep`.
pub open spec fn pieces_from(s: Seq<char>, sep: char, from: int) -> Seq<Seq<char>>
    decreases s.len() - from,
{
    if from < 0 || from > s.len() {
        Seq::empty()
    } else {
        let end = next_sep(s, sep, from);
        if from <= end < s.len() {
            seq![s.subrange(from, end)] + pieces_from(s, sep, end + 1)
        } else {
            seq![s.subrange(from, s.len() as int)]
        }
    }
}

/// The pieces of `s` divided at every `sep`: one more than there are
/// separators.
pub open spec fn pieces(s: Seq<char>, sep: char) -> Seq<Seq<char>> {
    pieces_from(s, sep, 0)
}

/// Views of a list of strings.
pub open spec fn views(v: Seq<String>) -> Seq<Seq<char>> {
    v.map_values(|s: String| s@)
}

/// Divide `s` at every `sep`.
pub fn split(s: &str, sep: char) -> (r: Vec<String>)
    ensures
        views(r@) == pieces(s@, sep),
{
    let chars = chars_of(s);
    let mut out: Vec<String> = Vec::new();
    let mut from: usize = 0;
    let ghost all = pieces(s@, sep);
    proof {
        assert(views(out@) + pieces_from(s@, sep, 0) =~= all);
    }
    loop
        invariant
            chars@ == s@,
            from <= chars@.len(),
            views(out@) + pieces_from(s@, sep, from as int) == all,
            all == pieces(s@, sep),
        decreases chars@.len() - from,
    {
        let mut end: usize = from;
        while end < chars.len() && chars[end] != sep
            invariant
                chars@ == s@,
                from <= end <= chars@.len(),
                next_sep(s@, sep, from as int) == next_sep(s@, sep, end as int),
            decreases chars@.len() - end,
        {
            end = end + 1;
        }
        let ghost before = views(out@);
        let piece = string_of(&chars, from, end);
        out.push(piece);
        proof {
            assert(views(out@) =~= before.push(piece@));
        }
        if end == chars.len() {
            proof {
                assert(views(out@) =~= all);
            }
            return out;
        }
        proof {
            assert(views(out@) + pieces_from(s@, sep, end + 1) =~= before + (seq![piece@]
                + pieces_from(s@, sep, end + 1)));
        }
        from = end + 1;
    }
}

// ---------------------------------------------------------------------------
// Laws
// ---------------------------------------------------------------------------

/// The number that decimal digits spell.
pub open spec fn spelled_number(digits: Seq<char>) -> int
    decreases digits.len(),
{
    if digits.len() == 0 {
        0
    } else {
        10 * spelled_number(digits.drop_last()) + (digits.last() as int - 48)
    }
}

/// Decimal digits spell their number, and only a single digit starts with zero.
pub proof fn law_decimal_spells(n: nat)
    ensures
        spelled_number(decimal(n)) == n,
        decimal(n).len() > 0,
        forall|i: int| 0 <= i < decimal(n).len() ==> 48 <= #[trigger] decimal(n)[i] as int <= 57,
        decimal(n).len() > 1 ==> decimal(n)[0] as int != 48,
    decreases n,
{
    if n < 10 {
        let d = decimal(n);
        assert(d.drop_last() =~= Seq::empty());
        assert(spelled_number(d.drop_last()) == 0);
    } else {
        law_decimal_spells(n / 10);
        let d = decimal(n);
        assert(d.drop_last() =~= decimal(n / 10));
        assert(d.last() as int - 48 == n % 10);
        assert forall|i: int| 0 <= i < d.len() implies 48 <= #[trigger] d[i] as int <= 57 by {
            if i < d.len() - 1 {
                assert(d[i] == decimal(n / 10)[i]);
            }
        }
        assert(d[0] == decimal(n / 10)[0]);
        if decimal(n / 10).len() == 1 {
            assert(spelled_number(decimal(n / 10).drop_last()) == 0) by {
                assert(decimal(n / 10).drop_last() =~= Seq::empty());
            }
            assert(decimal(n / 10).last() as int - 48 == n / 10);
        }
    }
}

/// A number is appended in decimal, a minus sign before a negative one.
pub proof fn law_number_appended(out: &mut String, n: i64)
    requires
        call_ensures(push_decimal_i64, (out, n), ()),
    ensures
        old(out)@.len() < final(out)@.len(),
        final(out)@.take(old(out)@.len() as int) == old(out)@,
        n >= 0 ==> spelled_number(final(out)@.skip(old(out)@.len() as int)) == n,
        n < 0 ==> final(out)@[old(out)@.len() as int] == '-' && spelled_number(
            final(out)@.skip(old(out)@.len() as int + 1),
        ) == -n,
{
    let k = old(out)@.len() as int;
    assert(final(out)@.take(k) =~= old(out)@);
    if n >= 0 {
        law_decimal_spells(n as nat);
        assert(final(out)@.skip(k) =~= decimal(n as nat));
    } else {
        law_decimal_spells((-n) as nat);
        assert(final(out)@.skip(k + 1) =~= decimal((-n) as nat));
    }
}

/// The order of texts is that of their code points: it is strict and total, a text comes
/// before every longer one that starts with it, and otherwise the first difference
/// decides.
pub proof fn law_order_of_texts(a: &str, b: &str, r: bool, n: int)
    requires
        call_ensures(before, (a, b), r),
        0 <= n <= a@.len(),
        n <= b@.len(),
        forall|i: int| 0 <= i < n ==> a@[i] == b@[i],
    ensures
        n < a@.len() && n < b@.len() && a@[n] != b@[n] ==> r == (a@[n] < b@[n]),
        n == a@.len() ==> r == (a@.len() < b@.len()),
        n == b@.len() ==> !r,
{
    lemma_common_start(a@, b@, n);
}

/// Equal characters at the start decide nothing.
proof fn lemma_common_start(a: Seq<char>, b: Seq<char>, n: int)
    requires
        0 <= n <= a.len(),
        n <= b.len(),
        forall|i: int| 0 <= i < n ==> a[i] == b[i],
    ensures
        n < a.len() && n < b.len() && a[n] != b[n] ==> precedes(a, b) == (a[n] < b[n]),
        n == a.len() ==> precedes(a, b) == (a.len() < b.len()),
        n == b.len() ==> !precedes(a, b),
    decreases n,
{
    if n > 0 {
        let (x, y) = (a.drop_first(), b.drop_first());
        assert forall|i: int| 0 <= i < n - 1 implies x[i] == y[i] by {
            assert(x[i] == a[i + 1] && y[i] == b[i + 1]);
        }
        lemma_common_start(x, y, n - 1);
    }
}

/// Lower case changes the letters from `A` to `Z` and nothing else, and upper case those
/// from `a` to `z`.
pub proof fn law_letter_case(s: &str, low: String, up: String, i: int)
    requires
        call_ensures(to_lower, (s,), low),
        call_ensures(to_upper, (s,), up),
        0 <= i < s@.len(),
    ensures
        low@.len() == s@.len(),
        up@.len() == s@.len(),
        low@[i] as int == (if 65 <= s@[i] as int <= 90 {
            s@[i] as int + 32
        } else {
            s@[i] as int
        }),
        up@[i] as int == (if 97 <= s@[i] as int <= 122 {
            s@[i] as int - 32
        } else {
            s@[i] as int
        }),
{
}

/// Trimming drops white space at both ends and nothing else.
pub proof fn law_trimmed(s: &str, r: String)
    requires
        call_ensures(trim, (s,), r),
    ensures
        r@.len() > 0 ==> !white_space(r@[0]) && !white_space(r@.last()),
        exists|from: int, to: int|
            {
                &&& 0 <= from <= to <= s@.len()
                &&& #[trigger] s@.subrange(from, to) == r@
                &&& forall|i: int| 0 <= i < from ==> white_space(#[trigger] s@[i])
                &&& forall|i: int| to <= i < s@.len() ==> white_space(#[trigger] s@[i])
            },
{
    let from = lemma_trim_start(s@);
    let mid = trim_start(s@);
    let to = lemma_trim_end(mid);
    assert(s@.subrange(from, from + to) =~= mid.take(to));
    assert forall|i: int| from + to <= i < s@.len() implies white_space(#[trigger] s@[i]) by {
        assert(mid[i - from] == s@[i]);
    }
    assert(s@.subrange(from, from + to) == r@);
    if r@.len() > 0 {
        assert(r@[0] == mid[0]);
    }
}

/// Where the text starts after its leading white space.
proof fn lemma_trim_start(s: Seq<char>) -> (from: int)
    ensures
        0 <= from <= s.len(),
        trim_start(s) == s.skip(from),
        forall|i: int| 0 <= i < from ==> white_space(#[trigger] s[i]),
        from < s.len() ==> !white_space(s[from]),
    decreases s.len(),
{
    if s.len() > 0 && white_space(s[0]) {
        let rest = s.drop_first();
        let k = lemma_trim_start(rest);
        assert(rest.skip(k) =~= s.skip(k + 1));
        assert forall|i: int| 0 <= i < k + 1 implies white_space(#[trigger] s[i]) by {
            if i > 0 {
                assert(rest[i - 1] == s[i]);
            }
        }
        if k < rest.len() {
            assert(rest[k] == s[k + 1]);
        }
        k + 1
    } else {
        assert(s.skip(0) =~= s);
        0
    }
}

/// Where the text ends before its trailing white space.
proof fn lemma_trim_end(s: Seq<char>) -> (to: int)
    ensures
        0 <= to <= s.len(),
        trim_end(s) == s.take(to),
        forall|i: int| to <= i < s.len() ==> white_space(#[trigger] s[i]),
        to > 0 ==> !white_space(s[to - 1]),
    decreases s.len(),
{
    if s.len() > 0 && white_space(s.last()) {
        let rest = s.drop_last();
        let k = lemma_trim_end(rest);
        assert(rest.take(k) =~= s.take(k));
        assert forall|i: int| k <= i < s.len() implies white_space(#[trigger] s[i]) by {
            if i < s.len() - 1 {
                assert(rest[i] == s[i]);
            }
        }
        k
    } else {
        assert(s.take(s.len() as int) =~= s);
        s.len() as int
    }
}

/// A text with a separator between any two pieces.
pub open spec fn rejoined(pieces: Seq<Seq<char>>, sep: char) -> Seq<char>
    decreases pieces.len(),
{
    if pieces.len() == 0 {
        Seq::empty()
    } else if pieces.len() == 1 {
        pieces[0]
    } else {
        pieces[0].push(sep) + rejoined(pieces.drop_first(), sep)
    }
}

/// Dividing a text loses nothing: the pieces have no separator in them, and with one
/// between any two they are the text again.
pub proof fn law_pieces_rejoin(s: &str, sep: char, r: Vec<String>)
    requires
        call_ensures(split, (s, sep), r),
    ensures
        r@.len() > 0,
        rejoined(views(r@), sep) == s@,
        forall|i: int| 0 <= i < r@.len() ==> !(#[trigger] r@[i])@.contains(sep),
{
    lemma_pieces_from(s@, sep, 0);
    assert(s@.skip(0) =~= s@);
    let all = views(r@);
    assert forall|i: int| 0 <= i < r@.len() implies !(#[trigger] r@[i])@.contains(sep) by {
        assert(all[i] == r@[i]@);
    }
}

/// The separator found is the next one.
proof fn lemma_sep_found(s: Seq<char>, sep: char, from: int)
    requires
        0 <= from <= s.len(),
    ensures
        from <= next_sep(s, sep, from) <= s.len(),
        forall|i: int| from <= i < next_sep(s, sep, from) ==> s[i] != sep,
        next_sep(s, sep, from) < s.len() ==> s[next_sep(s, sep, from)] == sep,
    decreases s.len() - from,
{
    if from < s.len() && s[from] != sep {
        lemma_sep_found(s, sep, from + 1);
    }
}

/// The pieces from a position on.
pub proof fn lemma_pieces_from(s: Seq<char>, sep: char, from: int)
    requires
        0 <= from <= s.len(),
    ensures
        pieces_from(s, sep, from).len() > 0,
        rejoined(pieces_from(s, sep, from), sep) == s.skip(from),
        forall|i: int|
            0 <= i < pieces_from(s, sep, from).len() ==> !(#[trigger] pieces_from(
                s,
                sep,
                from,
            )[i]).contains(sep),
    decreases s.len() - from,
{
    let end = next_sep(s, sep, from);
    lemma_sep_found(s, sep, from);
    let first = s.subrange(from, end);
    assert(!first.contains(sep)) by {
        if first.contains(sep) {
            let k = choose|k: int| 0 <= k < first.len() && first[k] == sep;
            assert(s[from + k] == sep);
        }
    }
    if end < s.len() {
        lemma_pieces_from(s, sep, end + 1);
        let rest = pieces_from(s, sep, end + 1);
        let all = seq![first] + rest;
        assert(all.drop_first() =~= rest);
        assert(rejoined(all, sep) =~= s.skip(from));
        assert forall|i: int| 0 <= i < all.len() implies !(#[trigger] all[i]).contains(sep) by {
            if i > 0 {
                assert(all[i] == rest[i - 1]);
            }
        }
    } else {
        assert(first =~= s.skip(from));
        assert(seq![first].len() == 1);
    }
}

/// One text stands in another where some stretch of the other is that text.
pub proof fn law_contains(hay: &str, needle: &str, r: bool)
    requires
        call_ensures(contains, (hay, needle), r),
    ensures
        r <==> exists|start: Seq<char>, end: Seq<char>| #[trigger]
            (start + needle@ + end) == hay@,
{
    if r {
        let at = choose|at: int| occurs_at(hay@, needle@, at);
        let start = hay@.take(at);
        let end = hay@.skip(at + needle@.len());
        assert(start + needle@ + end =~= hay@);
    }
    if exists|start: Seq<char>, end: Seq<char>| #[trigger] (start + needle@ + end) == hay@ {
        let (start, end) = choose|start: Seq<char>, end: Seq<char>| #[trigger]
            (start + needle@ + end) == hay@;
        let at = start.len() as int;
        assert(hay@.subrange(at, at + needle@.len()) =~= needle@);
        assert(occurs_at(hay@, needle@, at));
    }
}

} // verus!

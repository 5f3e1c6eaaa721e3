//! Numbers as text.

use vstd::prelude::*;
use vstd::string::StringExecFns;

verus! {

/// The character for one digit, up to base sixteen.
pub open spec fn digit(d: nat) -> char {
    if d == 0 {
        '0'
    } else if d == 1 {
        '1'
    } else if d == 2 {
        '2'
    } else if d == 3 {
        '3'
    } else if d == 4 {
        '4'
    } else if d == 5 {
        '5'
    } else if d == 6 {
        '6'
    } else if d == 7 {
        '7'
    } else if d == 8 {
        '8'
    } else if d == 9 {
        '9'
    } else if d == 10 {
        'a'
    } else if d == 11 {
        'b'
    } else if d == 12 {
        'c'
    } else if d == 13 {
        'd'
    } else if d == 14 {
        'e'
    } else {
        'f'
    }
}

/// `n` in decimal, without leading zeros.
pub open spec fn decimal(n: nat) -> Seq<char>
    decreases n,
{
    if n < 10 {
        seq![digit(n)]
    } else {
        decimal(n / 10).push(digit(n % 10))
    }
}

/// `n` in decimal, with a minus sign where it is negative.
pub open spec fn signed_decimal(n: int) -> Seq<char> {
    if n < 0 {
        seq!['-'] + decimal((-n) as nat)
    } else {
        decimal(n as nat)
    }
}

/// The last `width` hexadecimal digits of `n`.
pub open spec fn hex(n: nat, width: nat) -> Seq<char>
    decreases width,
{
    if width == 0 {
        Seq::empty()
    } else {
        hex(n / 16, (width - 1) as nat).push(digit(n % 16))
    }
}

/// Those words that are marked, in the order given.
pub open spec fn chosen(words: Seq<(bool, Seq<char>)>) -> Seq<Seq<char>>
    decreases words.len(),
{
    if words.len() == 0 {
        Seq::empty()
    } else if words.last().0 {
        chosen(words.drop_last()).push(words.last().1)
    } else {
        chosen(words.drop_last())
    }
}

/// The words one after the other, with one space between neighbours.
pub open spec fn spaced(words: Seq<Seq<char>>) -> Seq<char>
    decreases words.len(),
{
    if words.len() == 0 {
        Seq::empty()
    } else if words.len() == 1 {
        words[0]
    } else {
        spaced(words.drop_last()) + " "@ + words.last()
    }
}

/// The text of one digit.
fn digit_text(d: u8) -> (s: &'static str)
    requires
        d < 16,
    ensures
        s@ == seq![digit(d as nat)],
{
    proof {
        reveal_strlit("0");
        reveal_strlit("1");
        reveal_strlit("2");
        reveal_strlit("3");
        reveal_strlit("4");
        reveal_strlit("5");
        reveal_strlit("6");
        reveal_strlit("7");
        reveal_strlit("8");
        reveal_strlit("9");
        reveal_strlit("a");
        reveal_strlit("b");
        reveal_strlit("c");
        reveal_strlit("d");
        reveal_strlit("e");
        reveal_strlit("f");
    }
    match d {
        0 => "0",
        1 => "1",
        2 => "2",
        3 => "3",
        4 => "4",
        5 => "5",
        6 => "6",
        7 => "7",
        8 => "8",
        9 => "9",
        10 => "a",
        11 => "b",
        12 => "c",
        13 => "d",
        14 => "e",
        _ => "f",
    }
}

/// Appends `n` in decimal.
pub fn push_decimal(out: &mut String, n: u64)
    ensures
        final(out)@ == old(out)@ + decimal(n as nat),
    decreases n,
{
    if n < 10 {
        out.append(digit_text(n as u8));
    } else {
        push_decimal(out, n / 10);
        out.append(digit_text((n % 10) as u8));
    }
}

/// Appends `n` in decimal, with a minus sign where it is negative.
pub fn push_signed(out: &mut String, n: i64)
    requires
        n > i64::MIN,
    ensures
        final(out)@ == old(out)@ + signed_decimal(n as int),
{
    if n < 0 {
        proof {
            reveal_strlit("-");
        }
        out.append("-");
        push_decimal(out, (-n) as u64);
        assert(out@ =~= old(out)@ + signed_decimal(n as int));
    } else {
        push_decimal(out, n as u64);
    }
}

/// Appends the two hexadecimal digits of a byte.
pub fn push_hex_byte(out: &mut String, n: u8)
    ensures
        final(out)@ == old(out)@ + hex(n as nat, 2),
{
    reveal_with_fuel(hex, 3);
    out.append(digit_text(n / 16));
    out.append(digit_text(n % 16));
}

/// Appends the four hexadecimal digits of a 16-bit number.
pub fn push_hex_word(out: &mut String, n: u16)
    ensures
        final(out)@ == old(out)@ + hex(n as nat, 4),
{
    push_hex_byte(out, (n / 256) as u8);
    push_hex_byte(out, (n % 256) as u8);
    proof {
        reveal_with_fuel(hex, 5);
        let n = n as nat;
        assert((n / 16) / 16 == n / 256);
        assert((n / 16) % 16 == (n % 256) / 16);
        assert(n % 16 == (n % 256) % 16);
        assert(out@ =~= old(out)@ + hex(n, 4));
    }
}

/// The words and their marks.
pub open spec fn marked(words: Seq<(bool, &'static str)>) -> Seq<(bool, Seq<char>)> {
    words.map_values(|w: (bool, &'static str)| (w.0, w.1@))
}

/// Appends those words that are marked, with one space between neighbours.
pub fn push_chosen(out: &mut String, words: &[(bool, &'static str)])
    ensures
        final(out)@ == old(out)@ + spaced(chosen(marked(words@))),
{
    let ghost all = marked(words@);
    let ghost before = out@;
    let mut first = true;
    let mut i: usize = 0;
    assert(out@ =~= before + spaced(chosen(all.take(0))));
    while i < words.len()
        invariant
            i <= words.len(),
            all == marked(words@),
            first == (chosen(all.take(i as int)).len() == 0),
            out@ == before + spaced(chosen(all.take(i as int))),
        decreases words.len() - i,
    {
        let (mark, word) = words[i];
        let ghost sofar = chosen(all.take(i as int));
        let ghost next = chosen(all.take(i + 1));
        assert(all.take(i + 1).drop_last() =~= all.take(i as int));
        assert(all.take(i + 1).last() == (mark, word@));
        if mark {
            assert(next == sofar.push(word@));
            assert(next.drop_last() =~= sofar);
            if !first {
                out.append(" ");
            }
            out.append(word);
            first = false;
            assert(out@ =~= before + spaced(next));
        } else {
            assert(next == sofar);
        }
        i += 1;
    }
    assert(all.take(i as int) =~= all);
}

// ── Reading text back ────────────────────────────────────────────────────────

/// Two texts that go on after their first `c` are the same up to it and the same behind it.
pub proof fn lemma_split_at_first(a: Seq<char>, x: Seq<char>, b: Seq<char>, y: Seq<char>, c: char)
    requires
        !a.contains(c),
        !b.contains(c),
        a + seq![c] + x == b + seq![c] + y,
    ensures
        a == b,
        x == y,
{
    let left = a + seq![c] + x;
    let right = b + seq![c] + y;
    if a.len() < b.len() {
        assert(right[a.len() as int] == b[a.len() as int]);
        assert(left[a.len() as int] == c);
        assert(b.contains(c));
    } else if b.len() < a.len() {
        assert(left[b.len() as int] == a[b.len() as int]);
        assert(right[b.len() as int] == c);
        assert(a.contains(c));
    }
    assert(a + (seq![c] + x) =~= left);
    assert(b + (seq![c] + y) =~= right);
    lemma_same_lengths(a, seq![c] + x, b, seq![c] + y);
    lemma_same_lengths(seq![c], x, seq![c], y);
}

/// Two texts that go on after their last `c` are the same up to it and the same behind it.
pub proof fn lemma_split_at_last(a: Seq<char>, x: Seq<char>, b: Seq<char>, y: Seq<char>, c: char)
    requires
        !x.contains(c),
        !y.contains(c),
        a + seq![c] + x == b + seq![c] + y,
    ensures
        a == b,
        x == y,
{
    let left = a + seq![c] + x;
    let right = b + seq![c] + y;
    assert(left.len() == a.len() + 1 + x.len());
    assert(right.len() == b.len() + 1 + y.len());
    if a.len() < b.len() {
        assert(right[b.len() as int] == c);
        assert(left[b.len() as int] == x[b.len() - a.len() - 1]);
        assert(x.contains(c));
    } else if b.len() < a.len() {
        assert(left[a.len() as int] == c);
        assert(right[a.len() as int] == y[a.len() - b.len() - 1]);
        assert(y.contains(c));
    }
    assert(a + (seq![c] + x) =~= left);
    assert(b + (seq![c] + y) =~= right);
    lemma_same_lengths(a, seq![c] + x, b, seq![c] + y);
    lemma_same_lengths(seq![c], x, seq![c], y);
}

/// Equal texts with beginnings of equal length have equal beginnings and equal ends.
pub proof fn lemma_same_lengths(a: Seq<char>, x: Seq<char>, b: Seq<char>, y: Seq<char>)
    requires
        a.len() == b.len(),
        a + x == b + y,
    ensures
        a == b,
        x == y,
{
    assert((a + x).len() == a.len() + x.len());
    assert((b + y).len() == b.len() + y.len());
    assert forall|i: int| 0 <= i < a.len() implies a[i] == b[i] by {
        assert((a + x)[i] == a[i]);
        assert((b + y)[i] == b[i]);
    }
    assert(a =~= b);
    assert forall|i: int| 0 <= i < x.len() implies x[i] == y[i] by {
        assert((a + x)[a.len() + i] == x[i]);
        assert((b + y)[b.len() + i] == y[i]);
    }
    assert(x =~= y);
}

/// A number in decimal is made of digits.
pub proof fn lemma_decimal_digits(n: nat)
    ensures
        decimal(n).len() > 0,
        forall|i: int| 0 <= i < decimal(n).len() ==> '0' <= #[trigger] decimal(n)[i] <= '9',
    decreases n,
{
    if n >= 10 {
        lemma_decimal_digits(n / 10);
    }
}

/// Different numbers differ in decimal.
pub proof fn lemma_decimal_is_faithful(m: nat, n: nat)
    requires
        decimal(m) == decimal(n),
    ensures
        m == n,
    decreases m,
{
    if m >= 10 && n >= 10 {
        let (dm, dn) = (decimal(m / 10), decimal(n / 10));
        assert(dm.push(digit(m % 10)).last() == digit(m % 10));
        assert(dn.push(digit(n % 10)).last() == digit(n % 10));
        assert(dm.push(digit(m % 10)).drop_last() =~= dm);
        assert(dn.push(digit(n % 10)).drop_last() =~= dn);
        lemma_decimal_is_faithful(m / 10, n / 10);
    } else if m >= 10 {
        lemma_decimal_digits(m / 10);
        assert(decimal(n).len() == 1);
    } else if n >= 10 {
        lemma_decimal_digits(n / 10);
        assert(decimal(m).len() == 1);
    } else {
        assert(decimal(m)[0] == digit(m));
        assert(decimal(n)[0] == digit(n));
    }
}

/// A signed number in decimal holds nothing but digits and the sign.
pub proof fn lemma_signed_chars(n: int)
    ensures
        forall|i: int|
            0 <= i < signed_decimal(n).len() ==> '0' <= #[trigger] signed_decimal(n)[i] <= '9'
                || signed_decimal(n)[i] == '-',
{
    if n < 0 {
        lemma_decimal_digits((-n) as nat);
    } else {
        lemma_decimal_digits(n as nat);
    }
}

/// Different signed numbers differ in decimal.
pub proof fn lemma_signed_is_faithful(m: int, n: int)
    requires
        signed_decimal(m) == signed_decimal(n),
    ensures
        m == n,
{
    let am = (if m < 0 {
        -m
    } else {
        m
    }) as nat;
    let an = (if n < 0 {
        -n
    } else {
        n
    }) as nat;
    lemma_decimal_digits(am);
    lemma_decimal_digits(an);
    if m < 0 {
        assert(signed_decimal(m)[0] == '-');
    } else {
        assert(signed_decimal(m)[0] == decimal(am)[0]);
    }
    if n < 0 {
        assert(signed_decimal(n)[0] == '-');
    } else {
        assert(signed_decimal(n)[0] == decimal(an)[0]);
    }
    if m < 0 {
        lemma_same_lengths(seq!['-'], decimal(am), seq!['-'], decimal(an));
    }
    lemma_decimal_is_faithful(am, an);
}

/// A word: it has characters, and none of them is a space.
pub open spec fn is_word(w: Seq<char>) -> bool {
    w.len() > 0 && !w.contains(' ')
}

/// Different lists of words differ with spaces between them.
pub proof fn lemma_spaced_is_faithful(v: Seq<Seq<char>>, w: Seq<Seq<char>>)
    requires
        forall|i: int| 0 <= i < v.len() ==> is_word(#[trigger] v[i]),
        forall|i: int| 0 <= i < w.len() ==> is_word(#[trigger] w[i]),
        spaced(v) == spaced(w),
    ensures
        v == w,
    decreases v.len(),
{
    reveal_strlit(" ");
    assert(" "@ =~= seq![' ']);
    lemma_spaced_form(v);
    lemma_spaced_form(w);
    if v.len() >= 2 && w.len() >= 2 {
        lemma_split_at_last(spaced(v.drop_last()), v.last(), spaced(w.drop_last()), w.last(), ' ');
        lemma_spaced_is_faithful(v.drop_last(), w.drop_last());
        assert(v =~= v.drop_last().push(v.last()));
        assert(w =~= w.drop_last().push(w.last()));
    } else {
        assert(v =~= w);
    }
}

/// Words with spaces between them are empty for no word, hold no space for one, and hold
/// one for more.
proof fn lemma_spaced_form(w: Seq<Seq<char>>)
    requires
        forall|i: int| 0 <= i < w.len() ==> is_word(#[trigger] w[i]),
    ensures
        w.len() == 0 ==> spaced(w).len() == 0,
        w.len() == 1 ==> spaced(w) == w[0] && is_word(w[0]),
        w.len() >= 2 ==> spaced(w).contains(' ') && is_word(w.last()) && forall|i: int|
            0 <= i < w.len() - 1 ==> is_word(#[trigger] w.drop_last()[i]),
{
    if w.len() >= 2 {
        reveal_strlit(" ");
        let before = spaced(w.drop_last());
        assert(spaced(w)[before.len() as int] == ' ');
        assert forall|i: int| 0 <= i < w.len() - 1 implies is_word(
            #[trigger] w.drop_last()[i],
        ) by {
            assert(w.drop_last()[i] == w[i]);
        }
    } else if w.len() == 1 {
        assert(is_word(w[0]));
    }
}

/// A character that is no space and in none of the words is not between them either.
pub proof fn lemma_spaced_without(w: Seq<Seq<char>>, c: char)
    requires
        c != ' ',
        forall|i: int| 0 <= i < w.len() ==> !(#[trigger] w[i]).contains(c),
    ensures
        !spaced(w).contains(c),
    decreases w.len(),
{
    if w.len() == 1 {
        assert(!w[0].contains(c));
    } else if w.len() >= 2 {
        reveal_strlit(" ");
        let before = spaced(w.drop_last());
        assert forall|i: int| 0 <= i < w.len() - 1 implies !(
        #[trigger] w.drop_last()[i]).contains(c) by {
            assert(w.drop_last()[i] == w[i]);
        }
        lemma_spaced_without(w.drop_last(), c);
        assert(!w[w.len() - 1].contains(c));
        assert forall|i: int| 0 <= i < spaced(w).len() implies spaced(w)[i] != c by {
            if i < before.len() {
                assert(spaced(w)[i] == before[i]);
            } else if i > before.len() {
                assert(spaced(w)[i] == w.last()[i - before.len() - 1]);
            }
        }
    }
}

/// It does not matter in which order texts are put together.
pub proof fn lemma_regroup(a: Seq<char>, b: Seq<char>, c: Seq<char>)
    ensures
        a + b + c == a + (b + c),
{
    assert(a + b + c =~= a + (b + c));
}

/// The name is among the words.
pub open spec fn is_given(w: Seq<(bool, Seq<char>)>, name: Seq<char>) -> bool {
    exists|k: int| 0 <= k < w.len() && (#[trigger] w[k]).1 == name
}

/// What is chosen is among the words.
pub proof fn lemma_chosen_are_given(w: Seq<(bool, Seq<char>)>)
    ensures
        forall|i: int| 0 <= i < chosen(w).len() ==> is_given(w, #[trigger] chosen(w)[i]),
    decreases w.len(),
{
    if w.len() > 0 {
        let rest = w.drop_last();
        lemma_chosen_are_given(rest);
        assert forall|i: int| 0 <= i < chosen(w).len() implies is_given(
            w,
            #[trigger] chosen(w)[i],
        ) by {
            if i < chosen(rest).len() {
                assert(chosen(w)[i] == chosen(rest)[i]);
                let k = choose|k: int|
                    0 <= k < rest.len() && (#[trigger] rest[k]).1 == chosen(rest)[i];
                assert(w[k] == rest[k]);
            } else {
                assert(w[w.len() - 1].1 == chosen(w)[i]);
            }
        }
    }
}

/// Two ways of marking the same words, which are all different, choose differently.
pub proof fn lemma_chosen_is_faithful(v: Seq<(bool, Seq<char>)>, w: Seq<(bool, Seq<char>)>)
    requires
        v.len() == w.len(),
        forall|i: int| 0 <= i < v.len() ==> (#[trigger] v[i]).1 == w[i].1,
        forall|i: int, j: int|
            0 <= i < j < v.len() ==> (#[trigger] v[i]).1 != (#[trigger] v[j]).1,
        chosen(v) == chosen(w),
    ensures
        v == w,
    decreases v.len(),
{
    if v.len() > 0 {
        let (rv, rw) = (v.drop_last(), w.drop_last());
        let name = v.last().1;
        assert(v[v.len() - 1].1 == name && w[v.len() - 1].1 == name);
        assert forall|i: int| 0 <= i < rv.len() implies (#[trigger] rv[i]).1 == rw[i].1 by {
            assert(v[i].1 == w[i].1);
        }
        assert forall|i: int, j: int| 0 <= i < j < rv.len() implies (#[trigger] rv[i]).1 != (
        #[trigger] rv[j]).1 by {
            assert(v[i].1 != v[j].1);
        }
        assert forall|k: int| 0 <= k < rv.len() implies (#[trigger] rv[k]).1 != name by {
            assert(v[k].1 != v[v.len() - 1].1);
        }
        assert forall|k: int| 0 <= k < rw.len() implies (#[trigger] rw[k]).1 != name by {
            assert(rv[k].1 == rw[k].1);
        }
        lemma_chosen_are_given(rv);
        lemma_chosen_are_given(rw);
        if v.last().0 && w.last().0 {
            assert(chosen(v).drop_last() =~= chosen(rv));
            assert(chosen(w).drop_last() =~= chosen(rw));
        } else if v.last().0 {
            assert(chosen(v).last() == name);
            assert(chosen(rw)[chosen(rw).len() - 1] == name);
        } else if w.last().0 {
            assert(chosen(w).last() == name);
            assert(chosen(rv)[chosen(rv).len() - 1] == name);
        }
        lemma_chosen_is_faithful(rv, rw);
        assert(v =~= rv.push(v.last()));
        assert(w =~= rw.push(w.last()));
    }
}

// ── What the texts mean ──────────────────────────────────────────────────────

/// The number that a row of decimal digits stands for.
pub open spec fn decimal_value(s: Seq<char>) -> int
    decreases s.len(),
{
    if s.len() == 0 {
        0
    } else {
        10 * decimal_value(s.drop_last()) + (s.last() as int - 48)
    }
}

/// The number that a row of hexadecimal digits stands for, with letters from `a` on.
pub open spec fn hex_value(s: Seq<char>) -> int
    decreases s.len(),
{
    if s.len() == 0 {
        0
    } else {
        16 * hex_value(s.drop_last()) + (if s.last() <= '9' {
            s.last() as int - 48
        } else {
            s.last() as int - 87
        })
    }
}

/// A number in decimal stands for that number, and does not start with a zero unless it is
/// zero.
pub proof fn lemma_decimal_means_the_number(n: nat)
    ensures
        decimal_value(decimal(n)) == n,
        decimal(n).len() > 0,
        n > 0 ==> decimal(n)[0] != '0',
    decreases n,
{
    reveal_with_fuel(decimal_value, 2);
    if n >= 10 {
        lemma_decimal_means_the_number(n / 10);
        let d = decimal(n / 10);
        assert(d.push(digit(n % 10)).drop_last() =~= d);
        assert(decimal(n)[0] == d[0]);
    } else {
        assert(seq![digit(n)].drop_last() =~= Seq::empty());
    }
}

/// A negative number is a minus sign and the number without its sign; any other is the
/// number.
pub proof fn lemma_signed_means_the_number(n: int)
    ensures
        n < 0 ==> signed_decimal(n).len() > 0 && signed_decimal(n)[0] == '-' && decimal_value(
            signed_decimal(n).drop_first(),
        ) == -n,
        n >= 0 ==> decimal_value(signed_decimal(n)) == n && signed_decimal(n)[0] != '-',
{
    if n < 0 {
        lemma_decimal_means_the_number((-n) as nat);
        assert(signed_decimal(n).drop_first() =~= decimal((-n) as nat));
    } else {
        lemma_decimal_means_the_number(n as nat);
        lemma_decimal_digits(n as nat);
    }
}

/// Two hexadecimal digits stand for a byte, four for a number of 16 bits.
pub proof fn lemma_hex_means_the_number(n: nat)
    ensures
        n < 256 ==> hex(n, 2).len() == 2 && hex_value(hex(n, 2)) == n,
        n < 65536 ==> hex(n, 4).len() == 4 && hex_value(hex(n, 4)) == n,
{
    lemma_hex_step(n, 0);
    lemma_hex_step(n, 1);
    lemma_hex_step(n, 2);
    lemma_hex_step(n, 3);
    lemma_hex_step(n / 16, 0);
    lemma_hex_step(n / 16, 1);
    lemma_hex_step(n / 16, 2);
    lemma_hex_step(n / 16 / 16, 0);
    lemma_hex_step(n / 16 / 16, 1);
    lemma_hex_step(n / 16 / 16 / 16, 0);
}

/// One more hexadecimal digit is one more remainder by 16.
proof fn lemma_hex_step(n: nat, width: nat)
    ensures
        hex(n, width + 1).len() == hex(n / 16, width).len() + 1,
        hex_value(hex(n, width + 1)) == 16 * hex_value(hex(n / 16, width)) + n % 16,
        hex(n, 0).len() == 0 && hex_value(hex(n, 0)) == 0,
{
    let d = hex(n / 16, width);
    assert(d.push(digit(n % 16)).drop_last() =~= d);
}

/// What is chosen of two lists, one behind the other, is what is chosen of each; of a single
/// word it is the word where it is marked.
pub proof fn lemma_choosing_goes_in_order(v: Seq<(bool, Seq<char>)>, w: Seq<(bool, Seq<char>)>)
    ensures
        chosen(v + w) == chosen(v) + chosen(w),
        v.len() == 1 ==> chosen(v) == (if v[0].0 {
            seq![v[0].1]
        } else {
            Seq::empty()
        }),
    decreases w.len(),
{
    reveal_with_fuel(chosen, 2);
    if w.len() > 0 {
        lemma_choosing_goes_in_order(v, w.drop_last());
        assert((v + w).drop_last() =~= v + w.drop_last());
        assert(chosen(v + w) =~= chosen(v) + chosen(w));
    } else {
        assert(v + w =~= v);
        assert(chosen(v) + chosen(w) =~= chosen(v));
    }
    if v.len() == 1 {
        assert(v.drop_last() =~= Seq::empty());
        assert(chosen(v) =~= (if v[0].0 {
            seq![v[0].1]
        } else {
            Seq::empty()
        }));
    }
}

/// Two lists of words, one behind the other, stand with one space between them; a single
/// word stands by itself.
pub proof fn lemma_spacing_goes_in_order(v: Seq<Seq<char>>, w: Seq<Seq<char>>)
    ensures
        v.len() > 0 && w.len() > 0 ==> spaced(v + w) == spaced(v) + seq![' '] + spaced(w),
        v.len() == 1 ==> spaced(v) == v[0],
        v.len() == 0 ==> spaced(v) == Seq::<char>::empty(),
    decreases w.len(),
{
    reveal_strlit(" ");
    assert(" "@ =~= seq![' ']);
    if v.len() > 0 && w.len() > 0 {
        assert((v + w).drop_last() =~= v + w.drop_last());
        if w.len() == 1 {
            assert(v + w.drop_last() =~= v);
        } else {
            lemma_spacing_goes_in_order(v, w.drop_last());
            assert(spaced(v + w) =~= spaced(v) + seq![' '] + spaced(w));
        }
    }
}

/// A word is chosen exactly when it is given with a mark.
pub proof fn lemma_chosen_are_marked(w: Seq<(bool, Seq<char>)>, name: Seq<char>)
    ensures
        chosen(w).contains(name) <==> exists|k: int|
            0 <= k < w.len() && (#[trigger] w[k]).0 && w[k].1 == name,
    decreases w.len(),
{
    if w.len() > 0 {
        let rest = w.drop_last();
        lemma_chosen_are_marked(rest, name);
        assert forall|k: int| 0 <= k < rest.len() implies #[trigger] w[k] == rest[k] by {}
        if chosen(w).contains(name) {
            let i = choose|i: int| 0 <= i < chosen(w).len() && chosen(w)[i] == name;
            if i < chosen(rest).len() {
                assert(chosen(rest)[i] == name);
                let k = choose|k: int|
                    0 <= k < rest.len() && (#[trigger] rest[k]).0 && rest[k].1 == name;
                assert(w[k].0 && w[k].1 == name);
            } else {
                assert(w[w.len() - 1].0 && w[w.len() - 1].1 == name);
            }
        }
        if exists|k: int| 0 <= k < w.len() && (#[trigger] w[k]).0 && w[k].1 == name {
            let k = choose|k: int| 0 <= k < w.len() && (#[trigger] w[k]).0 && w[k].1 == name;
            if k < rest.len() {
                assert(rest[k].0 && rest[k].1 == name);
                let i = choose|i: int| 0 <= i < chosen(rest).len() && chosen(rest)[i] == name;
                assert(chosen(w)[i] == name);
            } else {
                assert(chosen(w)[chosen(w).len() - 1] == name);
            }
        }
    }
}

// ── Labelled values ──────────────────────────────────────────────────────────

/// Labels, each followed by its value.
pub open spec fn labelled(parts: Seq<(Seq<char>, Seq<char>)>) -> Seq<char>
    decreases parts.len(),
{
    if parts.len() == 0 {
        Seq::empty()
    } else {
        parts[0].0 + (parts[0].1 + labelled(parts.drop_first()))
    }
}

/// One more label with its value comes at the end.
pub proof fn lemma_labelled_push(
    parts: Seq<(Seq<char>, Seq<char>)>,
    label: Seq<char>,
    value: Seq<char>,
)
    ensures
        labelled(parts.push((label, value))) == labelled(parts) + label + value,
    decreases parts.len(),
{
    reveal_with_fuel(labelled, 2);
    let more = parts.push((label, value));
    if parts.len() == 0 {
        assert(more.drop_first() =~= Seq::empty());
        assert(labelled(more) =~= labelled(parts) + label + value);
    } else {
        assert(more.drop_first() =~= parts.drop_first().push((label, value)));
        lemma_labelled_push(parts.drop_first(), label, value);
        let rest = labelled(parts.drop_first());
        assert(parts[0].0 + (parts[0].1 + (rest + label + value)) =~= parts[0].0 + (parts[0].1
            + rest) + label + value);
    }
}

/// A label that can stand behind a value: it starts with a comma.
pub open spec fn is_separating(label: Seq<char>) -> bool {
    label.len() > 0 && label[0] == ','
}

/// Under the same labels, different values make different texts: every value can be read
/// back.
pub proof fn lemma_labelled_is_faithful(
    p: Seq<(Seq<char>, Seq<char>)>,
    q: Seq<(Seq<char>, Seq<char>)>,
)
    requires
        p.len() == q.len(),
        forall|i: int| 0 <= i < p.len() ==> (#[trigger] p[i]).0 == q[i].0,
        forall|i: int| 1 <= i < p.len() ==> is_separating((#[trigger] p[i]).0),
        forall|i: int| 0 <= i < p.len() ==> !(#[trigger] p[i]).1.contains(','),
        forall|i: int| 0 <= i < q.len() ==> !(#[trigger] q[i]).1.contains(','),
        labelled(p) == labelled(q),
    ensures
        forall|i: int| 0 <= i < p.len() ==> (#[trigger] p[i]).1 == q[i].1,
    decreases p.len(),
{
    if p.len() > 0 {
        let (u, v) = (p.drop_first(), q.drop_first());
        assert forall|i: int| 0 <= i < u.len() implies #[trigger] u[i] == p[i + 1] by {}
        assert forall|i: int| 0 <= i < v.len() implies #[trigger] v[i] == q[i + 1] by {}
        lemma_same_lengths(p[0].0, p[0].1 + labelled(u), q[0].0, q[0].1 + labelled(v));
        assert(!p[0].1.contains(',') && !q[0].1.contains(','));
        if u.len() == 0 {
            assert(p[0].1 + labelled(u) =~= p[0].1);
            assert(q[0].1 + labelled(v) =~= q[0].1);
        } else {
            assert(u[0].0 == p[1].0 && v[0].0 == q[1].0);
            let (x, y) = (labelled(u).drop_first(), labelled(v).drop_first());
            assert(is_separating(p[1].0));
            assert(p[1].0 == q[1].0);
            assert(labelled(u) =~= seq![','] + x);
            assert(labelled(v) =~= seq![','] + y);
            lemma_regroup(p[0].1, seq![','], x);
            lemma_regroup(q[0].1, seq![','], y);
            lemma_split_at_first(p[0].1, x, q[0].1, y, ',');
            assert forall|i: int| 0 <= i < u.len() implies (#[trigger] u[i]).0 == v[i].0 by {
                assert(p[i + 1].0 == q[i + 1].0);
            }
            assert forall|i: int| 1 <= i < u.len() implies is_separating((#[trigger] u[i]).0) by {
                assert(is_separating(p[i + 1].0));
            }
            assert forall|i: int| 0 <= i < u.len() implies !(#[trigger] u[i]).1.contains(',') by {
                assert(!p[i + 1].1.contains(','));
            }
            assert forall|i: int| 0 <= i < v.len() implies !(#[trigger] v[i]).1.contains(',') by {
                assert(!q[i + 1].1.contains(','));
            }
            lemma_labelled_is_faithful(u, v);
            assert forall|i: int| 0 <= i < p.len() implies (#[trigger] p[i]).1 == q[i].1 by {
                if i > 0 {
                    assert(u[i - 1].1 == v[i - 1].1);
                }
            }
        }
    }
}

/// A comma is in no number.
pub proof fn lemma_numbers_have_no_comma(n: nat, width: nat)
    ensures
        !decimal(n).contains(','),
        !hex(n, width).contains(','),
    decreases width,
{
    lemma_decimal_digits(n);
    if width > 0 {
        lemma_numbers_have_no_comma(n / 16, (width - 1) as nat);
        let d = hex(n / 16, (width - 1) as nat);
        assert forall|i: int| 0 <= i < hex(n, width).len() implies hex(n, width)[i] != ',' by {
            if i < d.len() {
                assert(hex(n, width)[i] == d[i]);
            }
        }
    }
}

} // verus!

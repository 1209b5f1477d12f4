//! Numbers as text.
use vstd::prelude::*;
use vstd::string::*;

verus! {

/// The character of a decimal digit.
pub open spec fn digit(d: int) -> char {
    if d == 0 {
        '0'
    } else if d == 1 {
        '1'
    } else if d == 2 {
        '2'
    } else if d == 3 {
        '3'
    } else if d == 4 {
        '4'
    } else if d == 5 {
        '5'
    } else if d == 6 {
        '6'
    } else if d == 7 {
        '7'
    } else if d == 8 {
        '8'
    } else {
        '9'
    }
}

/// A number in decimal, without leading zeros.
pub open spec fn decimal(n: nat) -> Seq<char>
    decreases n,
{
    if n < 10 {
        seq![digit(n as int)]
    } else {
        decimal(n / 10).push(digit((n % 10) as int))
    }
}

/// The last three digits of a number, with leading zeros.
pub open spec fn three_digits(n: nat) -> Seq<char> {
    seq![digit((n / 100 % 10) as int), digit((n / 10 % 10) as int), digit((n % 10) as int)]
}

/// A number in decimal with its digits grouped in threes: 1234567 is
/// "1,234,567".
pub open spec fn grouped(n: nat) -> Seq<char>
    decreases n,
{
    if n < 1000 {
        decimal(n)
    } else {
        grouped(n / 1000).push(',') + three_digits(n % 1000)
    }
}

/// Appends one decimal digit.
fn push_digit(out: &mut String, d: u64)
    requires
        d < 10,
    ensures
        final(out)@ == old(out)@.push(digit(d as int)),
{
    proof {
        reveal_strlit("0");
        reveal_strlit("1");
        reveal_strlit("2");
        reveal_strlit("3");
        reveal_strlit("4");
        reveal_strlit("5");
        reveal_strlit("6");
        reveal_strlit("7");
        reveal_strlit("8");
        reveal_strlit("9");
    }
    let text: &str = match d {
        0 => "0",
        1 => "1",
        2 => "2",
        3 => "3",
        4 => "4",
        5 => "5",
        6 => "6",
        7 => "7",
        8 => "8",
        _ => "9",
    };
    assert(text@ =~= seq![digit(d as int)]);
    out.append(text);
    assert(final(out)@ =~= old(out)@.push(digit(d as int)));
}

/// Appends a number in decimal.
pub fn push_decimal(out: &mut String, n: u64)
    ensures
        final(out)@ == old(out)@ + decimal(n as nat),
    decreases n,
{
    if n < 10 {
        push_digit(out, n);
        assert(final(out)@ =~= old(out)@ + decimal(n as nat));
    } else {
        push_decimal(out, n / 10);
        push_digit(out, n % 10);
        assert(final(out)@ =~= old(out)@ + decimal(n as nat));
    }
}

/// A number in decimal.
pub fn decimal_text(n: u64) -> (text: String)
    ensures
        text@ == decimal(n as nat),
{
    let mut text = String::new();
    push_decimal(&mut text, n);
    assert(text@ =~= decimal(n as nat));
    text
}

/// 1234567 becomes "1,234,567", for the score displays.
pub fn thousands(n: u64) -> (text: String)
    ensures
        text@ == grouped(n as nat),
    decreases n,
{
    if n < 1000 {
        return decimal_text(n);
    }
    let mut text = thousands(n / 1000);
    proof {
        reveal_strlit(",");
    }
    text.append(",");
    let rest: u64 = n % 1000;
    push_digit(&mut text, rest / 100 % 10);
    push_digit(&mut text, rest / 10 % 10);
    push_digit(&mut text, rest % 10);
    assert(text@ =~= grouped((n / 1000) as nat).push(',') + three_digits((n % 1000) as nat));
    text
}

/// The text without its commas.
pub open spec fn without_commas(text: Seq<char>) -> Seq<char> {
    text.filter(|c: char| c != ',')
}

/// Grouping only adds commas: without them the digits of the number are left.
pub proof fn law_grouping_keeps_the_digits(n: nat)
    ensures
        without_commas(grouped(n)) == decimal(n),
    decreases n,
{
    let keep = |c: char| c != ',';
    if n < 1000 {
        lemma_decimal_has_no_comma(n);
    } else {
        law_grouping_keeps_the_digits(n / 1000);
        let rest = n % 1000;
        let head = grouped(n / 1000);
        let tail = three_digits(rest);
        Seq::filter_distributes_over_add(head.push(','), tail, keep);
        assert(head.push(',') =~= head + seq![',']);
        Seq::filter_distributes_over_add(head, seq![','], keep);
        reveal_with_fuel(Seq::filter, 2);
        assert(seq![','].filter(keep) =~= Seq::<char>::empty());
        lemma_no_comma(tail);
        assert(n / 10 / 10 / 10 == n / 1000);
        reveal_with_fuel(decimal, 4);
        assert(rest / 100 % 10 == n / 10 / 10 % 10);
        assert(rest / 10 % 10 == n / 10 % 10);
        assert(rest % 10 == n % 10);
        assert(without_commas(grouped(n)) =~= decimal(n / 1000) + tail);
        assert(decimal(n) =~= decimal(n / 1000) + tail);
    }
}

proof fn lemma_decimal_has_no_comma(n: nat)
    ensures
        without_commas(decimal(n)) == decimal(n),
{
    lemma_decimal_is_digits(n);
    lemma_no_comma(decimal(n));
}

proof fn lemma_decimal_is_digits(n: nat)
    ensures
        forall|i: int| 0 <= i < decimal(n).len() ==> #[trigger] decimal(n)[i] != ',',
    decreases n,
{
    if n >= 10 {
        lemma_decimal_is_digits(n / 10);
        let head = decimal(n / 10);
        assert forall|i: int| 0 <= i < decimal(n).len() implies #[trigger] decimal(n)[i] != ',' by {
            if i < head.len() {
                assert(decimal(n)[i] == head[i]);
            }
        }
    }
}

proof fn lemma_no_comma(text: Seq<char>)
    requires
        forall|i: int| 0 <= i < text.len() ==> #[trigger] text[i] != ',',
    ensures
        without_commas(text) == text,
    decreases text.len(),
{
    reveal(Seq::filter);
    if text.len() > 0 {
        lemma_no_comma(text.drop_last());
        assert(text =~= text.drop_last().push(text.last()));
    }
}

/// The number that a text of digits reads as.
pub open spec fn reads_as_number(text: Seq<char>) -> int
    decreases text.len(),
{
    if text.len() == 0 {
        0
    } else {
        10 * reads_as_number(text.drop_last()) + (text.last() as int - '0' as int)
    }
}

/// A number that is written in decimal reads as that number; it is written in digits
/// alone, and without a leading zero.
pub proof fn law_decimal_reads_as_the_number(n: nat)
    ensures
        reads_as_number(decimal(n)) == n,
        decimal(n).len() > 0,
        n > 0 ==> decimal(n)[0] != '0',
        n == 0 ==> decimal(n) == seq!['0'],
        forall|i: int| 0 <= i < decimal(n).len() ==> '0' <= #[trigger] decimal(n)[i] <= '9',
    decreases n,
{
    reveal_with_fuel(reads_as_number, 2);
    if n >= 10 {
        law_decimal_reads_as_the_number(n / 10);
        assert(decimal(n).drop_last() =~= decimal(n / 10));
        let head = decimal(n / 10);
        assert forall|i: int| 0 <= i < decimal(n).len() implies '0' <= #[trigger] decimal(n)[i]
            <= '9' by {
            if i < head.len() {
                assert(decimal(n)[i] == head[i]);
            }
        }
    } else {
        assert(decimal(n).drop_last() =~= Seq::<char>::empty());
        assert(decimal(n)[0] == digit(n as int));
    }
}

/// The commas of a grouped number stand after every three digits from the right, and
/// nowhere else; none stands in front.
pub proof fn law_commas_stand_after_three_digits(n: nat, k: int)
    requires
        0 <= k < grouped(n).len(),
    ensures
        grouped(n)[grouped(n).len() - 1 - k] == ',' <==> k % 4 == 3,
        grouped(n)[0] != ',',
    decreases n,
{
    if n < 1000 {
        lemma_decimal_is_digits(n);
        reveal_with_fuel(decimal, 4);
        assert(decimal(n).len() <= 3);
        assert(decimal(n)[decimal(n).len() - 1 - k] != ',');
    } else {
        let head = grouped(n / 1000);
        let tail = three_digits(n % 1000);
        let all = grouped(n);
        assert(all.len() == head.len() + 4);
        lemma_grouped_is_long(n / 1000);
        law_commas_stand_after_three_digits(n / 1000, 0);
        assert(all[0] == head[0]);
        if k >= 4 {
            law_commas_stand_after_three_digits(n / 1000, k - 4);
            assert(all[all.len() - 1 - k] == head[head.len() - 1 - (k - 4)]);
        } else if k == 3 {
            assert(all[all.len() - 4] == ',');
        } else {
            assert(all[all.len() - 1 - k] == tail[2 - k]);
        }
    }
}

proof fn lemma_grouped_is_long(n: nat)
    ensures
        grouped(n).len() > 0,
    decreases n,
{
    if n >= 1000 {
        lemma_grouped_is_long(n / 1000);
    }
}

} // verus!

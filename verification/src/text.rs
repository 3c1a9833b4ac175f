//! Rendering of numbers and lists into the text of messages and labels.

use vstd::prelude::*;
use vstd::string::*;

verus! {

/// The character of one decimal digit.
pub open spec fn digit_char(d: nat) -> char {
    (48 + d) as char
}

/// The decimal numeral of `n`, without leading zeros.
pub open spec fn decimal(n: nat) -> Seq<char>
    decreases n,
{
    if n < 10 {
        seq![digit_char(n)]
    } else {
        decimal(n / 10).push(digit_char(n % 10))
    }
}

/// The numerals of `items` separated by a comma and a space.
pub open spec fn joined(items: Seq<nat>) -> Seq<char>
    decreases items.len(),
{
    if items.len() == 0 {
        Seq::empty()
    } else if items.len() == 1 {
        decimal(items[0])
    } else {
        joined(items.drop_last()) + ", "@ + decimal(items.last())
    }
}

/// The numerals of `items` between square brackets.
pub open spec fn listing(items: Seq<nat>) -> Seq<char> {
    "["@ + joined(items) + "]"@
}

/// The numbers of a sequence of vertex or port ids.
pub open spec fn ids_as_nats(ids: Seq<u32>) -> Seq<nat> {
    ids.map_values(|id: u32| id as nat)
}

/// The numbers of a sequence of counts.
pub open spec fn counts_as_nats(counts: Seq<usize>) -> Seq<nat> {
    counts.map_values(|count: usize| count as nat)
}

fn digit_str(d: u64) -> (text: &'static str)
    requires
        d < 10,
    ensures
        text@ == seq![digit_char(d as nat)],
{
    proof {
        reveal_strlit("0");
        reveal_strlit("1");
        reveal_strlit("2");
        reveal_strlit("3");
        reveal_strlit("4");
        reveal_strlit("5");
        reveal_strlit("6");
        reveal_strlit("7");
        reveal_strlit("8");
        reveal_strlit("9");
    }
    match d {
        0 => "0",
        1 => "1",
        2 => "2",
        3 => "3",
        4 => "4",
        5 => "5",
        6 => "6",
        7 => "7",
        8 => "8",
        _ => "9",
    }
}

/// Renders `n` in decimal.
pub fn decimal_string(n: u64) -> (text: String)
    ensures
        text@ == decimal(n as nat),
    decreases n,
{
    if n < 10 {
        digit_str(n).to_owned()
    } else {
        let mut text = decimal_string(n / 10);
        text.append(digit_str(n % 10));
        text
    }
}

/// Renders a list of ids between square brackets.
pub fn ids_string(ids: &Vec<u32>) -> (text: String)
    ensures
        text@ == listing(ids_as_nats(ids@)),
{
    let mut text = "[".to_owned();
    let mut i: usize = 0;
    proof {
        assert(joined(ids_as_nats(ids@.take(0))) =~= Seq::<char>::empty());
    }
    while i < ids.len()
        invariant
            i <= ids.len(),
            text@ == "["@ + joined(ids_as_nats(ids@.take(i as int))),
        decreases ids.len() - i,
    {
        proof {
            let next = ids_as_nats(ids@.take(i + 1));
            assert(next.drop_last() =~= ids_as_nats(ids@.take(i as int)));
            assert(next.last() == ids@[i as int] as nat);
        }
        if i > 0 {
            text.append(", ");
        }
        text.append(decimal_string(ids[i] as u64).as_str());
        proof {
            let next = ids_as_nats(ids@.take(i + 1));
            assert(text@ =~= "["@ + joined(next));
        }
        i = i + 1;
    }
    proof {
        assert(ids@.take(i as int) =~= ids@);
    }
    text.append("]");
    text
}

/// Renders a list of counts between square brackets.
pub fn counts_string(counts: &Vec<usize>) -> (text: String)
    ensures
        text@ == listing(counts_as_nats(counts@)),
{
    let mut text = "[".to_owned();
    let mut i: usize = 0;
    proof {
        assert(joined(counts_as_nats(counts@.take(0))) =~= Seq::<char>::empty());
    }
    while i < counts.len()
        invariant
            i <= counts.len(),
            text@ == "["@ + joined(counts_as_nats(counts@.take(i as int))),
        decreases counts.len() - i,
    {
        proof {
            let next = counts_as_nats(counts@.take(i + 1));
            assert(next.drop_last() =~= counts_as_nats(counts@.take(i as int)));
            assert(next.last() == counts@[i as int] as nat);
        }
        if i > 0 {
            text.append(", ");
        }
        text.append(decimal_string(counts[i] as u64).as_str());
        proof {
            let next = counts_as_nats(counts@.take(i + 1));
            assert(text@ =~= "["@ + joined(next));
        }
        i = i + 1;
    }
    proof {
        assert(counts@.take(i as int) =~= counts@);
    }
    text.append("]");
    text
}

/// The number that a sequence of decimal digits stands for.
pub open spec fn number_of(digits: Seq<char>) -> int
    decreases digits.len(),
{
    if digits.len() == 0 {
        0
    } else {
        number_of(digits.drop_last()) * 10 + (digits.last() as u32 - 48)
    }
}

/// A numeral reads back as its number, is made of digits, and has no leading
/// zero.
pub proof fn law_numerals_read_back(n: nat)
    ensures
        number_of(decimal(n)) == n,
        decimal(n).len() > 0,
        forall|i: int| 0 <= i < decimal(n).len() ==> '0' <= #[trigger] decimal(n)[i] <= '9',
        n > 0 ==> decimal(n)[0] != '0',
    decreases n,
{
    reveal_with_fuel(number_of, 2);
    if n < 10 {
        assert(decimal(n).drop_last() =~= Seq::empty());
        assert(decimal(n).last() == digit_char(n));
    } else {
        law_numerals_read_back(n / 10);
        assert(decimal(n).drop_last() =~= decimal(n / 10));
        assert(decimal(n).last() == digit_char(n % 10));
        assert forall|i: int| 0 <= i < decimal(n).len() implies '0' <= #[trigger] decimal(n)[i]
            <= '9' by {
            if i < decimal(n / 10).len() {
                assert(decimal(n)[i] == decimal(n / 10)[i]);
            }
        }
        assert(decimal(n)[0] == decimal(n / 10)[0]);
    }
}

/// A listing stands between brackets, and each further item stands behind a
/// comma and a space.
pub proof fn law_listings_separate_items(items: Seq<nat>, item: nat)
    ensures
        listing(Seq::empty()) == "["@ + "]"@,
        listing(seq![item]) == "["@ + decimal(item) + "]"@,
        items.len() > 0 ==> listing(items.push(item)) == listing(items).drop_last() + ", "@
            + decimal(item) + "]"@,
{
    reveal_strlit("]");
    reveal_strlit("[");
    assert("["@ + Seq::<char>::empty() =~= "["@);
    assert(seq![item][0] == item);
    if items.len() > 0 {
        let more = items.push(item);
        assert(more.drop_last() =~= items);
        assert(more.last() == item);
        assert(listing(items).drop_last() =~= "["@ + joined(items));
        assert(listing(more) =~= listing(items).drop_last() + ", "@ + decimal(item) + "]"@);
    }
}

} // verus!

//! Small verified string builders: decimal rendering of unsigned numbers
//! (for ids, ports and ledger fields) and comma-joining of flavour lists.
use vstd::prelude::*;

verus! {

/// The character for one decimal digit.
pub open spec fn dec_digit(d: nat) -> char
    recommends
        d < 10,
{
    if d == 0 { '0' }
    else if d == 1 { '1' }
    else if d == 2 { '2' }
    else if d == 3 { '3' }
    else if d == 4 { '4' }
    else if d == 5 { '5' }
    else if d == 6 { '6' }
    else if d == 7 { '7' }
    else if d == 8 { '8' }
    else { '9' }
}

/// The usual decimal numeral of `n`: most significant digit first, no
/// leading zeros (a single `'0'` for zero).
pub open spec fn dec_rep(n: nat) -> Seq<char>
    decreases n,
{
    if n < 10 { seq![dec_digit(n)] } else { dec_rep(n / 10).push(dec_digit(n % 10)) }
}

pub(crate) fn digit_str(d: u64) -> (s: &'static str)
    requires
        d < 10,
    ensures
        s@ == seq![dec_digit(d as nat)],
{
    let s: &'static str = match d {
        0 => "0",
        1 => "1",
        2 => "2",
        3 => "3",
        4 => "4",
        5 => "5",
        6 => "6",
        7 => "7",
        8 => "8",
        _ => "9",
    };
    proof {
        reveal_strlit("0");
        reveal_strlit("1");
        reveal_strlit("2");
        reveal_strlit("3");
        reveal_strlit("4");
        reveal_strlit("5");
        reveal_strlit("6");
        reveal_strlit("7");
        reveal_strlit("8");
        reveal_strlit("9");
        assert(s@ =~= seq![dec_digit(d as nat)]);
    }
    s
}

/// Renders `n` in decimal.
pub fn fmt_u64(n: u64) -> (s: String)
    ensures
        s@ == dec_rep(n as nat),
    decreases n,
{
    if n < 10 {
        String::from_str(digit_str(n))
    } else {
        let mut s = fmt_u64(n / 10);
        s.append(digit_str(n % 10));
        proof {
            assert(s@ =~= dec_rep(n as nat));
        }
        s
    }
}

/// Renders `n` in decimal.
pub fn fmt_usize(n: usize) -> (s: String)
    ensures
        s@ == dec_rep(n as nat),
{
    fmt_u64(n as u64)
}

/// The items in order, separated by single commas with no surrounding
/// spaces; empty when there are no items.
pub open spec fn comma_join(items: Seq<Seq<char>>) -> Seq<char>
    decreases items.len(),
{
    if items.len() == 0 {
        Seq::<char>::empty()
    } else if items.len() == 1 {
        items[0]
    } else {
        comma_join(items.drop_last()) + seq![','] + items.last()
    }
}

/// Joins the strings with commas, as the ledger writes a flavour list.
pub fn join_commas(v: &Vec<String>) -> (s: String)
    ensures
        s@ == comma_join(v.deep_view()),
{
    let mut s = String::new();
    let mut i: usize = 0;
    while i < v.len()
        invariant
            i <= v.len(),
            s@ == comma_join(v.deep_view().subrange(0, i as int)),
        decreases v.len() - i,
    {
        if i > 0 {
            s.append(",");
            proof {
                reveal_strlit(",");
            }
        }
        s.append(v[i].as_str());
        proof {
            let pre = v.deep_view().subrange(0, i as int);
            let cur = v.deep_view().subrange(0, i + 1 as int);
            assert(cur.drop_last() =~= pre);
            assert(cur.last() == v.deep_view()[i as int]);
            assert(s@ =~= comma_join(cur));
        }
        i = i + 1;
    }
    proof {
        assert(v.deep_view().subrange(0, v.len() as int) =~= v.deep_view());
    }
    s
}

} // verus!
